//! The parser crate's parser: recursive descent over the token stream, with
//! statements for imports, `if` / `elif` / `else` chains, `for`, `while` and
//! `return`, and one rule per precedence level for expressions.

use vstd::prelude::*;
use crate::lexer::token::{Token, TokenKind, Span, kind_text, located_error, located, kind_text_spec};
use crate::lexer::rules::kind_view;
use crate::lexer::scanner::parser_input;
use crate::venus_parser::ast::{
    Program, Node, Variable, TypeExpr, ArgList, Arg, Decorator, AssignOp, Assignment, Expr, BinOp,
    UnOp, ForLoop, WhileLoop, IfChain, ReturnStmt, ImportStmt, ExprView, TypeView, ArgView, ArgListView,
    DecoratorView, VariableView, AssignmentView, ImportView, NodeView, expr_view, exprs_view, opt_expr_view,
    type_view, opt_type_view, arg_view, args_view, arg_list_view, decorator_view, decorators_view,
    strings_view, variable_view, import_view, node_view, nodes_view, branches_view, view_span,
    lemma_view_span, lemma_exprs_view_push, lemma_nodes_view_push, lemma_args_view_push,
    lemma_strings_view_push, lemma_decorators_view_push, lemma_branches_view_push,
};
use crate::text::{owned, decimal_string, decimal};

verus! {

broadcast use vstd::string::group_string_axioms;

/// The name a type keyword (or identifier) gives to a type.
pub open spec fn type_word(k: TokenKind) -> Option<Seq<char>> {
    match k {
        TokenKind::KwInt => Some("int"@),
        TokenKind::KwFloat => Some("float"@),
        TokenKind::KwString => Some("string"@),
        TokenKind::KwBool => Some("bool"@),
        TokenKind::KwStruct => Some("struct"@),
        TokenKind::KwObject => Some("object"@),
        TokenKind::KwBehaviour => Some("behaviour"@),
        TokenKind::KwFunc => Some("func"@),
        TokenKind::KwBuffer => Some("buffer"@),
        TokenKind::KwEnum => Some("enum"@),
        TokenKind::KwTask => Some("task"@),
        TokenKind::KwSignal => Some("signal"@),
        TokenKind::KwVec2 => Some("vec2"@),
        TokenKind::KwVec3 => Some("vec3"@),
        TokenKind::KwVec4 => Some("vec4"@),
        TokenKind::KwMat2 => Some("mat2"@),
        TokenKind::KwMat3 => Some("mat3"@),
        TokenKind::KwMat4 => Some("mat4"@),
        TokenKind::KwTensor => Some("tensor"@),
        TokenKind::Identifier(name) => Some(name@),
        _ => None,
    }
}

/// The innermost name of a type: `int[][]` names `int`.
pub open spec fn base_name(t: TypeExpr) -> Seq<char>
    decreases t,
{
    match t {
        TypeExpr::Named(n) => n@,
        TypeExpr::Array(inner) => base_name(*inner),
    }
}

/// The assignment operator a token stands for at statement level: `:` and
/// the compound `+=`, `-=`, `*=`, `/=`.
pub open spec fn assign_op_of(k: TokenKind) -> Option<AssignOp> {
    match k {
        TokenKind::Colon => Some(AssignOp::Assign),
        TokenKind::PlusEqual => Some(AssignOp::AddAssign),
        TokenKind::MinusEqual => Some(AssignOp::SubAssign),
        TokenKind::StarEqual => Some(AssignOp::MulAssign),
        TokenKind::SlashEqual => Some(AssignOp::DivAssign),
        _ => None,
    }
}

// ── The grammar, as a function of the tokens ──
// Each `*_at` function reads the tokens from a position and gives the view
// of what is parsed there and the position after it, or the message of the
// first error met. Positions only move forward. (A few branches that the
// tokens a parser takes never reach give an empty message.)

/// The kind of the token at `p`.
pub open spec fn tok(ts: Seq<Token>, p: int) -> TokenKind {
    ts[p].kind
}

/// The operator a token stands for at a precedence level: `==` `!=` (0),
/// `<` `>` `<=` `>=` (1), `+` `-` (2), `*` `/` (3).
pub open spec fn level_op(level: int, k: TokenKind) -> Option<BinOp> {
    if level == 0 {
        match k {
            TokenKind::EqualEqual => Some(BinOp::Eq),
            TokenKind::BangEqual => Some(BinOp::NotEq),
            _ => None,
        }
    } else if level == 1 {
        match k {
            TokenKind::Less => Some(BinOp::Lt),
            TokenKind::Greater => Some(BinOp::Gt),
            TokenKind::LessEqual => Some(BinOp::LtEq),
            TokenKind::GreaterEqual => Some(BinOp::GtEq),
            _ => None,
        }
    } else if level == 2 {
        match k {
            TokenKind::Plus => Some(BinOp::Add),
            TokenKind::Minus => Some(BinOp::Sub),
            _ => None,
        }
    } else {
        match k {
            TokenKind::Star => Some(BinOp::Mul),
            TokenKind::Slash => Some(BinOp::Div),
            _ => None,
        }
    }
}

/// The expression that a literal, identifier or type-keyword token stands
/// for on its own.
pub open spec fn atom_view(t: Token) -> Option<ExprView> {
    match t.kind {
        TokenKind::IntLiteral(n) => Some(ExprView::IntLiteral(n, t.span)),
        TokenKind::FloatLiteral(x) => Some(ExprView::FloatLiteral(x@, t.span)),
        TokenKind::StringLiteral(x) => Some(ExprView::StringLiteral(x@, t.span)),
        TokenKind::BoolLiteral(b) => Some(ExprView::BoolLiteral(b, t.span)),
        TokenKind::Identifier(n) => Some(ExprView::Identifier(n@, t.span)),
        TokenKind::LeftParen => None,
        k => if k.spec_is_type_keyword() { Some(ExprView::Identifier(t.lexeme@, t.span)) } else { None },
    }
}

/// An expression: equality, then comparison, sum and product levels.
/// The error for a missing token of a given kind at `p`: `err` located at
/// the token found there.
pub open spec fn missing(ts: Seq<Token>, p: int, err: Seq<char>) -> Seq<char> {
    located(err, ts[p])
}

/// "Expected expression at line L (found <kind>)" for token `t`.
pub open spec fn expected_expression(t: Token) -> Seq<char> {
    "Expected expression at line "@ + decimal(t.span.line as nat) + " (found "@ + kind_text_spec(kind_view(t.kind))
        + ")"@
}

pub open spec fn expr_at(ts: Seq<Token>, p: int) -> Result<(ExprView, int), Seq<char>>
    decreases ts.len() - p, 13nat,
{
    if !(0 <= p < ts.len()) {
        Err(seq![])
    } else {
        level_at(ts, p, 0)
    }
}

/// Operands of the next level joined, left to right, by the operators of
/// `level`; the operands of the last level are unary expressions.
pub open spec fn level_at(ts: Seq<Token>, p: int, level: int) -> Result<(ExprView, int), Seq<char>>
    decreases ts.len() - p, (12 - 2 * level) as nat,
{
    if !(0 <= p < ts.len() && 0 <= level <= 3) {
        Err(seq![])
    } else {
        let first = if level == 3 { unary_at(ts, p) } else { level_at(ts, p, level + 1) };
        match first {
            Ok((left, p1)) => if p <= p1 <= ts.len() { level_loop(ts, p1, level, left) } else { Err(seq![]) },
            Err(m) => Err(m),
        }
    }
}

pub open spec fn level_loop(ts: Seq<Token>, p: int, level: int, left: ExprView) -> Result<(ExprView, int), Seq<char>>
    decreases ts.len() - p, (11 - 2 * level) as nat,
{
    if !(0 <= p < ts.len() && 0 <= level <= 3) {
        Err(seq![])
    } else {
        match level_op(level, tok(ts, p)) {
            Some(op) => {
                let right = if level == 3 { unary_at(ts, p + 1) } else { level_at(ts, p + 1, level + 1) };
                match right {
                    Ok((r, p2)) => if p < p2 <= ts.len() {
                        level_loop(
                            ts,
                            p2,
                            level,
                            ExprView::BinaryOp { left: Box::new(left), op, right: Box::new(r), span: Span::zero() },
                        )
                    } else {
                        Err(seq![])
                    },
                    Err(m) => Err(m),
                }
            },
            None => Ok((left, p)),
        }
    }
}

/// `-` or `!` before an operand, or a primary expression.
pub open spec fn unary_at(ts: Seq<Token>, p: int) -> Result<(ExprView, int), Seq<char>>
    decreases ts.len() - p, 3nat,
{
    if !(0 <= p < ts.len()) {
        Err(seq![])
    } else if tok(ts, p) is Minus || tok(ts, p) is Bang {
        let op = if tok(ts, p) is Minus { UnOp::Negate } else { UnOp::Not };
        match unary_at(ts, p + 1) {
            Ok((e, p1)) => Ok((ExprView::UnaryOp { op, operand: Box::new(e), span: Span::zero() }, p1)),
            Err(m) => Err(m),
        }
    } else {
        primary_at(ts, p)
    }
}

/// An array literal, a parenthesized expression or an atom, then its calls,
/// member accesses and indexings. A parser that stands at an `Eof` does not
/// move, and reads the token before it once more: an atom there is the
/// expression again, anything else is reported as the missing expression,
/// but for a `(`, which would open the same group without end and is
/// answered by the missing expression at the `Eof`.
pub open spec fn primary_at(ts: Seq<Token>, p: int) -> Result<(ExprView, int), Seq<char>>
    decreases ts.len() - p, 2nat,
{
    if !(0 <= p < ts.len()) {
        Err(seq![])
    } else if ts[p].kind is Eof {
        // at the end, the token before is read once more
        if !(1 <= p) {
            Err(seq![])
        } else if ts[p - 1].kind is LeftParen {
            // a `(` read again would open the same group without end
            Err(expected_expression(ts[p]))
        } else {
            match atom_view(ts[p - 1]) {
                Some(e) => postfix_at(ts, p, e),
                None => Err(expected_expression(ts[p - 1])),
            }
        }
    } else if !(p + 1 < ts.len()) {
        Err(seq![])
    } else if tok(ts, p) is LeftBracket {
        let items = if tok(ts, p + 1) is RightBracket { Ok((seq![], p + 1)) } else { list_at(ts, p + 1, seq![]) };
        match items {
            Ok((es, p1)) => if !(p < p1 < ts.len()) {
                Err(seq![])
            } else if tok(ts, p1) is RightBracket {
                Ok((ExprView::ArrayLiteral(es, Span::zero()), p1 + 1))
            } else {
                Err(missing(ts, p1, "Expected ']' after array items"@))
            },
            Err(m) => Err(m),
        }
    } else if tok(ts, p) is LeftParen {
        match expr_at(ts, p + 1) {
            Ok((e, p1)) => if !(p < p1 < ts.len()) {
                Err(seq![])
            } else if tok(ts, p1) is RightParen {
                postfix_at(ts, p1 + 1, e)
            } else {
                Err(missing(ts, p1, "Expected ')'"@))
            },
            Err(m) => Err(m),
        }
    } else {
        match atom_view(ts[p]) {
            Some(e) => postfix_at(ts, p + 1, e),
            None => Err(expected_expression(ts[p])),
        }
    }
}

/// Expressions separated by commas, after those in `acc`.
pub open spec fn list_at(ts: Seq<Token>, p: int, acc: Seq<ExprView>) -> Result<(Seq<ExprView>, int), Seq<char>>
    decreases ts.len() - p, 14nat,
{
    if !(0 <= p < ts.len()) {
        Err(seq![])
    } else {
        match expr_at(ts, p) {
            Ok((e, p1)) => if p <= p1 < ts.len() {
                if tok(ts, p1) is Comma { list_at(ts, p1 + 1, acc.push(e)) } else { Ok((acc.push(e), p1)) }
            } else {
                Err(seq![])
            },
            Err(m) => Err(m),
        }
    }
}

/// Calls `(..)`, member accesses `.name` and indexings `[..]` after `e`.
pub open spec fn postfix_at(ts: Seq<Token>, p: int, e: ExprView) -> Result<(ExprView, int), Seq<char>>
    decreases ts.len() - p, 1nat,
{
    if !(0 <= p < ts.len()) {
        Err(seq![])
    } else if tok(ts, p) is LeftParen {
        if !(p + 1 < ts.len()) {
            Err(seq![])
        } else {
            let args = if tok(ts, p + 1) is RightParen { Ok((seq![], p + 1)) } else { list_at(ts, p + 1, seq![]) };
            match args {
                Ok((es, p1)) => if !(p < p1 < ts.len()) {
                    Err(seq![])
                } else if tok(ts, p1) is RightParen {
                    postfix_at(ts, p1 + 1, ExprView::Call { callee: Box::new(e), args: es, span: Span::zero() })
                } else {
                    Err(missing(ts, p1, "Expected ')' after call args"@))
                },
                Err(m) => Err(m),
            }
        }
    } else if tok(ts, p) is Dot {
        if p + 1 < ts.len() && tok(ts, p + 1).spec_is_type_keyword() {
            postfix_at(
                ts,
                p + 2,
                ExprView::MemberAccess { object: Box::new(e), member: ts[p + 1].lexeme@, span: Span::zero() },
            )
        } else {
            Err("Expected property name"@)
        }
    } else if tok(ts, p) is LeftBracket {
        match expr_at(ts, p + 1) {
            Ok((i, p1)) => if !(p < p1 < ts.len()) {
                Err(seq![])
            } else if tok(ts, p1) is RightBracket {
                postfix_at(
                    ts,
                    p1 + 1,
                    ExprView::IndexAccess { object: Box::new(e), index: Box::new(i), span: Span::zero() },
                )
            } else {
                Err(missing(ts, p1, "Expected ']' after index"@))
            },
            Err(m) => Err(m),
        }
    } else {
        Ok((e, p))
    }
}

/// A type: a type keyword or identifier, then any number of `[]`. At an
/// `Eof` the token before it is read once more.
pub open spec fn type_at(ts: Seq<Token>, p: int) -> Result<(TypeView, int), Seq<char>> {
    if !(0 <= p < ts.len()) {
        Err("Expected a type"@)
    } else if ts[p].kind is Eof {
        // at the end, the token before is read once more
        if !(1 <= p) {
            Err("Expected a type"@)
        } else {
            match type_word(ts[p - 1].kind) {
                Some(w) => brackets_at(ts, p, TypeView::Named(w)),
                None => Err("Expected a type"@),
            }
        }
    } else if !(p + 1 < ts.len()) {
        Err("Expected a type"@)
    } else {
        match type_word(tok(ts, p)) {
            Some(w) => brackets_at(ts, p + 1, TypeView::Named(w)),
            None => Err("Expected a type"@),
        }
    }
}

pub open spec fn brackets_at(ts: Seq<Token>, p: int, ty: TypeView) -> Result<(TypeView, int), Seq<char>>
    decreases ts.len() - p,
{
    if !(0 <= p < ts.len()) {
        Err(seq![])
    } else if tok(ts, p) is LeftBracket {
        if !(p + 1 < ts.len()) {
            Err(seq![])
        } else if tok(ts, p + 1) is RightBracket {
            brackets_at(ts, p + 2, TypeView::Array(Box::new(ty)))
        } else {
            Err(missing(ts, p + 1, "Expected ']' after '['"@))
        }
    } else {
        Ok((ty, p))
    }
}

/// A decorator whose `@` is the token before `p`: a dotted path of names.
pub open spec fn decorator_at(ts: Seq<Token>, p: int) -> Result<(DecoratorView, int), Seq<char>> {
    if !(1 <= p < ts.len()) {
        Err(seq![])
    } else if tok(ts, p).spec_is_type_keyword() {
        dots_at(ts, p + 1, seq![ts[p].lexeme@], ts[p - 1].span.start)
    } else {
        Err("Expected identifier after '@'"@)
    }
}

pub open spec fn dots_at(ts: Seq<Token>, p: int, path: Seq<Seq<char>>, start: usize) -> Result<(DecoratorView, int), Seq<char>>
    decreases ts.len() - p,
{
    if !(1 <= p < ts.len()) {
        Err(seq![])
    } else if tok(ts, p) is Dot {
        if p + 1 < ts.len() && tok(ts, p + 1).spec_is_type_keyword() {
            dots_at(ts, p + 2, path.push(ts[p + 1].lexeme@), start)
        } else {
            Err("Expected identifier after '.'"@)
        }
    } else {
        Ok((DecoratorView { path, span: Span { start, end: ts[p - 1].span.end, line: 0, column: 0 } }, p))
    }
}

/// One argument: typed (`int a`, `ref int a`), named (`w: 800`) or
/// positional (an expression).
pub open spec fn arg_at(ts: Seq<Token>, p: int) -> Result<(ArgView, int), Seq<char>> {
    if !(0 <= p < ts.len()) {
        Err(seq![])
    } else {
        let is_ref = tok(ts, p) is KwRef;
        let c = if is_ref { p + 1 } else { p };
        let typed = c < ts.len() && tok(ts, c).spec_is_type_keyword() && c + 1 < ts.len() && tok(ts, c + 1) is Identifier;
        if typed {
            match type_at(ts, c) {
                Ok((ty, q)) => if !(c < q < ts.len()) {
                    Err(seq![])
                } else if tok(ts, q).spec_is_type_keyword() {
                    Ok((ArgView::Typed { ty, name: ts[q].lexeme@, is_ref, span: ts[q].span }, q + 1))
                } else {
                    Err("Expected parameter name"@)
                },
                Err(m) => Err(m),
            }
        } else if tok(ts, p) is Identifier && p + 1 < ts.len() && tok(ts, p + 1) is Colon {
            match expr_at(ts, p + 2) {
                Ok((v, q)) => Ok((ArgView::Named { name: tok(ts, p)->Identifier_0@, value: v, span: ts[p].span }, q)),
                Err(m) => Err(m),
            }
        } else {
            match expr_at(ts, p) {
                Ok((v, q)) => Ok((ArgView::Positional(v), q)),
                Err(m) => Err(m),
            }
        }
    }
}

/// Arguments separated by commas, after those in `acc`.
pub open spec fn args_at(ts: Seq<Token>, p: int, acc: Seq<ArgView>) -> Result<(Seq<ArgView>, int), Seq<char>>
    decreases ts.len() - p,
{
    if !(0 <= p < ts.len()) {
        Err(seq![])
    } else {
        match arg_at(ts, p) {
            Ok((a, q)) => if p <= q < ts.len() {
                if tok(ts, q) is Comma { args_at(ts, q + 1, acc.push(a)) } else { Ok((acc.push(a), q)) }
            } else {
                Err(seq![])
            },
            Err(m) => Err(m),
        }
    }
}

/// The arguments after a `(` (the token before `p`), up to and including
/// the `)`.
pub open spec fn arg_list_at(ts: Seq<Token>, p: int) -> Result<(ArgListView, int), Seq<char>> {
    if !(1 <= p < ts.len()) {
        Err(seq![])
    } else {
        let args = if tok(ts, p) is RightParen { Ok((seq![], p)) } else { args_at(ts, p, seq![]) };
        match args {
            Ok((xs, q)) => if !(p <= q < ts.len()) {
                Err(seq![])
            } else if tok(ts, q) is RightParen {
                Ok((
                    ArgListView { args: xs, span: Span { start: ts[p - 1].span.start, end: ts[q].span.end, line: 0, column: 0 } },
                    q + 1,
                ))
            } else {
                Err(missing(ts, q, "Expected ')' after arguments"@))
            },
            Err(m) => Err(m),
        }
    }
}

/// `uses name`, if present.
pub open spec fn uses_at(ts: Seq<Token>, p: int) -> Result<(Seq<Seq<char>>, int), Seq<char>> {
    if 0 <= p < ts.len() && tok(ts, p) is KwUses {
        if p + 1 < ts.len() && tok(ts, p + 1).spec_is_type_keyword() {
            Ok((seq![ts[p + 1].lexeme@], p + 2))
        } else {
            Err("Expected identifier after 'uses'"@)
        }
    } else {
        Ok((seq![], p))
    }
}

/// `(arguments)`, if present.
pub open spec fn opt_args_at(ts: Seq<Token>, p: int) -> Result<(Option<ArgListView>, int), Seq<char>> {
    if 0 <= p < ts.len() && tok(ts, p) is LeftParen {
        match arg_list_at(ts, p + 1) {
            Ok((l, q)) => Ok((Some(l), q)),
            Err(m) => Err(m),
        }
    } else {
        Ok((None, p))
    }
}

/// `-> type`, if present.
pub open spec fn opt_ret_at(ts: Seq<Token>, p: int) -> Result<(Option<TypeView>, int), Seq<char>> {
    if 0 <= p < ts.len() && tok(ts, p) is Arrow {
        match type_at(ts, p + 1) {
            Ok((t, q)) => Ok((Some(t), q)),
            Err(m) => Err(m),
        }
    } else {
        Ok((None, p))
    }
}

/// `: value`, if present.
pub open spec fn opt_value_at(ts: Seq<Token>, p: int) -> Result<(Option<ExprView>, int), Seq<char>> {
    if 0 <= p < ts.len() && tok(ts, p) is Colon {
        match expr_at(ts, p + 1) {
            Ok((e, q)) => Ok((Some(e), q)),
            Err(m) => Err(m),
        }
    } else {
        Ok((None, p))
    }
}

/// The position after any blank lines.
pub open spec fn skip_newlines(ts: Seq<Token>, p: int) -> int
    decreases ts.len() - p,
{
    if 0 <= p < ts.len() && tok(ts, p) is Newline {
        skip_newlines(ts, p + 1)
    } else {
        p
    }
}

/// Decorators `@path` each on a line of its own, after those in `acc`.
pub open spec fn decorators_at(ts: Seq<Token>, p: int, acc: Seq<DecoratorView>) -> Result<(Seq<DecoratorView>, int), Seq<char>>
    decreases ts.len() - p,
{
    if !(0 <= p < ts.len()) {
        Err(seq![])
    } else if tok(ts, p) is At {
        match decorator_at(ts, p + 1) {
            Ok((d, q)) => if !(p < q < ts.len()) {
                Err(seq![])
            } else if tok(ts, q) is Newline {
                decorators_at(ts, q + 1, acc.push(d))
            } else {
                Err(missing(ts, q, "Expected newline after decorator"@))
            },
            Err(m) => Err(m),
        }
    } else {
        Ok((acc, p))
    }
}

/// An expression statement, or an assignment when `:`, `+=`, `-=`, `*=` or
/// `/=` follows the first expression; either ends its line.
pub open spec fn statement_at(ts: Seq<Token>, p: int) -> Result<(NodeView, int), Seq<char>> {
    match expr_at(ts, p) {
        Ok((e, p1)) => if !(p <= p1 < ts.len()) {
            Err(seq![])
        } else {
            match assign_op_of(tok(ts, p1)) {
                Some(op) => match expr_at(ts, p1 + 1) {
                    Ok((v, p2)) => if !(p1 < p2 < ts.len()) {
                        Err(seq![])
                    } else if tok(ts, p2) is Newline {
                        Ok((
                            NodeView::Assignment(AssignmentView { target: e, op, value: v, span: view_span(e) }),
                            p2 + 1,
                        ))
                    } else {
                        Err(missing(ts, p2, "Expected newline after assignment"@))
                    },
                    Err(m) => Err(m),
                },
                None => if tok(ts, p1) is Newline {
                    Ok((NodeView::ExprStmt(e), p1 + 1))
                } else {
                    Err(missing(ts, p1, "Expected newline after expression"@))
                },
            }
        },
        Err(m) => Err(m),
    }
}

/// Names separated by commas, after those in `acc`.
pub open spec fn items_at(ts: Seq<Token>, p: int, acc: Seq<Seq<char>>) -> Result<(Seq<Seq<char>>, int), Seq<char>>
    decreases ts.len() - p,
{
    if !(0 <= p < ts.len() - 1) {
        Err("Expected item to import"@)
    } else if tok(ts, p).spec_is_type_keyword() {
        if tok(ts, p + 1) is Comma {
            items_at(ts, p + 2, acc.push(ts[p].lexeme@))
        } else {
            Ok((acc.push(ts[p].lexeme@), p + 1))
        }
    } else {
        Err("Expected item to import"@)
    }
}

/// `import m` or `from m import a, b` / `from m import *`, ending its line;
/// the token at `p` is `import` or `from`.
pub open spec fn import_at(ts: Seq<Token>, p: int, is_from: bool) -> Result<(ImportView, int), Seq<char>> {
    let no_module = if is_from { "Expected module name after 'from'"@ } else { "Expected module name after 'import'"@ };
    if !(0 <= p < ts.len() - 1) {
        Err(seq![])
    } else if !tok(ts, p + 1).spec_is_type_keyword() {
        Err(no_module)
    } else {
        let start = ts[p].span.start;
        let head = if is_from {
            if !(p + 2 < ts.len()) {
                Err(seq![])
            } else if !(tok(ts, p + 2) is KwImport) {
                Err(missing(ts, p + 2, "Expected 'import' after module name"@))
            } else if p + 3 < ts.len() && tok(ts, p + 3) is Star {
                Ok((ts[p + 1].lexeme@, seq!["*"@], p + 4))
            } else {
                match items_at(ts, p + 3, seq![]) {
                    Ok((items, q)) => Ok((ts[p + 1].lexeme@, items, q)),
                    Err(m) => Err(m),
                }
            }
        } else {
            Ok((ts[p + 1].lexeme@, seq![], p + 2))
        };
        match head {
            Ok((m, items, q)) => if !(p < q < ts.len()) {
                Err(seq![])
            } else if tok(ts, q) is Newline {
                Ok((
                    ImportView { module_name: m, items, is_from, span: Span { start, end: ts[q].span.end, line: 0, column: 0 } },
                    q + 1,
                ))
            } else {
                Err(missing(ts, q, "Expected newline after import statement"@))
            },
            Err(m) => Err(m),
        }
    }
}

/// A node: decorators, then an import, an `if` chain, a loop, a `return`, an
/// exported declaration, a declaration (a type keyword, or an identifier
/// followed by another), or a statement.
pub open spec fn node_at(ts: Seq<Token>, p: int) -> Result<(NodeView, int), Seq<char>>
    decreases ts.len() - p, 30nat,
{
    if !(0 <= p < ts.len()) {
        Err(seq![])
    } else {
        match decorators_at(ts, p, seq![]) {
            Ok((decos, q)) => if !(p <= q < ts.len()) {
                Err(seq![])
            } else {
                let k = tok(ts, q);
                if k is KwImport || k is KwFrom {
                    match import_at(ts, q, k is KwFrom) {
                        Ok((i, r)) => Ok((NodeView::Import(i), r)),
                        Err(m) => Err(m),
                    }
                } else if k is KwIf {
                    if_at(ts, q)
                } else if k is KwFor {
                    for_at(ts, q)
                } else if k is KwWhile {
                    while_at(ts, q)
                } else if k is KwReturn {
                    return_at(ts, q)
                } else if k is KwExport {
                    match variable_at(ts, q + 1, decos, true) {
                        Ok((v, r)) => Ok((NodeView::Variable(v), r)),
                        Err(m) => Err(m),
                    }
                } else if k.spec_is_type_keyword() {
                    let decl = if k is Identifier { q + 1 < ts.len() && tok(ts, q + 1) is Identifier } else { true };
                    if decl {
                        match variable_at(ts, q, decos, false) {
                            Ok((v, r)) => Ok((NodeView::Variable(v), r)),
                            Err(m) => Err(m),
                        }
                    } else {
                        statement_at(ts, q)
                    }
                } else {
                    statement_at(ts, q)
                }
            },
            Err(m) => Err(m),
        }
    }
}

/// A declaration: `const` and `ref` markers, the type, the name, `uses`,
/// arguments, return type, `: value`, the end of its line, then an indented
/// block of content.
pub open spec fn variable_at(ts: Seq<Token>, p: int, decos: Seq<DecoratorView>, is_export: bool) -> Result<(VariableView, int), Seq<char>>
    decreases ts.len() - p, 17nat,
{
    if !(0 <= p < ts.len()) {
        Err(seq![])
    } else {
        let is_const = tok(ts, p) is KwConst;
        let p1 = if is_const { p + 1 } else { p };
        let is_ref = tok(ts, p1) is KwRef;
        let p2 = if is_ref { p1 + 1 } else { p1 };
        match type_at(ts, p2) {
            Ok((ty, p3)) => if !(p2 <= p3 < ts.len()) {
                Err(seq![])
            } else if !tok(ts, p3).spec_is_type_keyword() {
                Err("Expected variable name"@)
            } else {
                let name = ts[p3].lexeme@;
                match uses_at(ts, p3 + 1) {
                    Ok((uses, p5)) => match opt_args_at(ts, p5) {
                        Ok((args, p6)) => match opt_ret_at(ts, p6) {
                            Ok((ret, p7)) => match opt_value_at(ts, p7) {
                                Ok((value, p8)) => if !(p < p8 < ts.len()) {
                                    Err(seq![])
                                } else if !(tok(ts, p8) is Newline) {
                                    Err(missing(ts, p8, "Expected newline after variable declaration"@))
                                } else if !(p8 < skip_newlines(ts, p8 + 1) <= ts.len()) {
                                    Err(seq![])
                                } else {
                                    match content_at(ts, skip_newlines(ts, p8 + 1)) {
                                        Ok((content, q)) => if !(p < q <= ts.len()) {
                                            Err(seq![])
                                        } else {
                                            Ok((
                                                VariableView {
                                                    type_expr: ty,
                                                    name,
                                                    arguments: args,
                                                    value,
                                                    content,
                                                    return_type: ret,
                                                    decorators: decos,
                                                    uses,
                                                    is_const,
                                                    is_export,
                                                    is_ref,
                                                    span: Span { start: ts[p].span.start, end: ts[q - 1].span.end, line: 0, column: 0 },
                                                },
                                                q,
                                            ))
                                        },
                                        Err(m) => Err(m),
                                    }
                                },
                                Err(m) => Err(m),
                            },
                            Err(m) => Err(m),
                        },
                        Err(m) => Err(m),
                    },
                    Err(m) => Err(m),
                }
            },
            Err(m) => Err(m),
        }
    }
}

/// A declaration's content: an indented block, if one starts at `p`, up to
/// and including its `Dedent`.
pub open spec fn content_at(ts: Seq<Token>, p: int) -> Result<(Seq<NodeView>, int), Seq<char>>
    decreases ts.len() - p, 16nat,
{
    if 0 <= p < ts.len() && tok(ts, p) is Indent {
        match block_at(ts, p + 1, seq![]) {
            Ok((ns, q)) => if !(p < q < ts.len()) {
                Err(seq![])
            } else if tok(ts, q) is Dedent {
                Ok((ns, q + 1))
            } else {
                Err(missing(ts, q, "Expected dedent after block"@))
            },
            Err(m) => Err(m),
        }
    } else {
        Ok((seq![], p))
    }
}

/// The nodes of a block, after those in `acc`, up to its `Dedent` (or the
/// end); blank lines are skipped.
pub open spec fn block_at(ts: Seq<Token>, p: int, acc: Seq<NodeView>) -> Result<(Seq<NodeView>, int), Seq<char>>
    decreases ts.len() - p, 31nat,
{
    if !(0 <= p < ts.len()) {
        Err(seq![])
    } else if tok(ts, p) is Dedent || tok(ts, p) is Eof {
        Ok((acc, p))
    } else if tok(ts, p) is Newline {
        block_at(ts, p + 1, acc)
    } else {
        match node_at(ts, p) {
            Ok((n, q)) => if p < q <= ts.len() { block_at(ts, q, acc.push(n)) } else { Err(seq![]) },
            Err(m) => Err(m),
        }
    }
}

/// The block after a header line: blank lines (when `skip_blank`), `Indent`
/// (else the error `indent_err`), the nodes, `Dedent`.
pub open spec fn indented_at(ts: Seq<Token>, p: int, skip_blank: bool, indent_err: Seq<char>) -> Result<(Seq<NodeView>, int), Seq<char>>
    decreases ts.len() - p, 16nat,
{
    if !(0 <= p < ts.len()) {
        Err(seq![])
    } else {
        let p1 = if skip_blank { skip_newlines(ts, p) } else { p };
        if !(p <= p1 < ts.len()) {
            Err(seq![])
        } else if !(tok(ts, p1) is Indent) {
            Err(missing(ts, p1, indent_err))
        } else {
            match block_at(ts, p1 + 1, seq![]) {
                Ok((ns, q)) => if !(p1 < q < ts.len()) {
                    Err(seq![])
                } else if tok(ts, q) is Dedent {
                    Ok((ns, q + 1))
                } else {
                    Err(missing(ts, q, "Expected dedent"@))
                },
                Err(m) => Err(m),
            }
        }
    }
}

/// `if cond`, its block, any `elif cond` with their blocks, and an optional
/// `else` with its block; the token at `p` is `if`.
pub open spec fn if_at(ts: Seq<Token>, p: int) -> Result<(NodeView, int), Seq<char>>
    decreases ts.len() - p, 25nat,
{
    if !(0 <= p < ts.len() - 1) {
        Err(seq![])
    } else {
        match expr_at(ts, p + 1) {
            Ok((c, p1)) => if !(p < p1 < ts.len()) {
                Err(seq![])
            } else if !(tok(ts, p1) is Newline) {
                Err(missing(ts, p1, "Expected newline after if condition"@))
            } else {
                match indented_at(ts, p1 + 1, true, "Expected block after if"@) {
                    Ok((then_body, p2)) => if !(p1 < p2 <= ts.len()) {
                        Err(seq![])
                    } else {
                        match elifs_at(ts, p2, seq![]) {
                            Ok((elifs, p3)) => if !(p2 <= p3 < ts.len()) {
                                Err(seq![])
                            } else {
                                match else_at(ts, p3) {
                                    Ok((else_body, q)) => Ok((
                                        NodeView::IfChain { condition: c, then_body, elif_branches: elifs, else_body, span: Span::zero() },
                                        q,
                                    )),
                                    Err(m) => Err(m),
                                }
                            },
                            Err(m) => Err(m),
                        }
                    },
                    Err(m) => Err(m),
                }
            },
            Err(m) => Err(m),
        }
    }
}

/// An optional `else` line with its block, after an `if` chain's branches.
pub open spec fn else_at(ts: Seq<Token>, p: int) -> Result<(Option<Seq<NodeView>>, int), Seq<char>>
    decreases ts.len() - p, 24nat,
{
    if !(0 <= p < ts.len()) {
        Err(seq![])
    } else if tok(ts, p) is KwElse {
        if !(p + 1 < ts.len()) {
            Err(seq![])
        } else if tok(ts, p + 1) is Newline {
            match indented_at(ts, p + 2, false, "Expected block"@) {
                Ok((b, q)) => Ok((Some(b), q)),
                Err(m) => Err(m),
            }
        } else {
            Err(missing(ts, p + 1, "Expected newline"@))
        }
    } else {
        Ok((None, p))
    }
}

/// `elif cond` lines with their blocks, after those in `acc`.
pub open spec fn elifs_at(ts: Seq<Token>, p: int, acc: Seq<(ExprView, Seq<NodeView>)>) -> Result<(Seq<(ExprView, Seq<NodeView>)>, int), Seq<char>>
    decreases ts.len() - p, 24nat,
{
    if !(0 <= p < ts.len()) {
        Err(seq![])
    } else if tok(ts, p) is KwElif {
        match expr_at(ts, p + 1) {
            Ok((c, p1)) => if !(p < p1 < ts.len()) {
                Err(seq![])
            } else if !(tok(ts, p1) is Newline) {
                Err(missing(ts, p1, "Expected newline"@))
            } else {
                match indented_at(ts, p1 + 1, true, "Expected block"@) {
                    Ok((b, p2)) => if p1 < p2 <= ts.len() { elifs_at(ts, p2, acc.push((c, b))) } else { Err(seq![]) },
                    Err(m) => Err(m),
                }
            },
            Err(m) => Err(m),
        }
    } else {
        Ok((acc, p))
    }
}

/// `for name in iterable` and its block; the token at `p` is `for`.
pub open spec fn for_at(ts: Seq<Token>, p: int) -> Result<(NodeView, int), Seq<char>>
    decreases ts.len() - p, 25nat,
{
    if !(0 <= p < ts.len() - 1) {
        Err(seq![])
    } else if !tok(ts, p + 1).spec_is_type_keyword() {
        Err("Expected loop variable"@)
    } else if !(p + 2 < ts.len()) {
        Err(seq![])
    } else if !(tok(ts, p + 2) is KwIn) {
        Err(missing(ts, p + 2, "Expected 'in' after loop variable"@))
    } else {
        match expr_at(ts, p + 3) {
            Ok((it, p1)) => if !(p < p1 < ts.len()) {
                Err(seq![])
            } else if !(tok(ts, p1) is Newline) {
                Err(missing(ts, p1, "Expected newline after for condition"@))
            } else {
                match indented_at(ts, p1 + 1, true, "Expected block"@) {
                    Ok((body, q)) => Ok((
                        NodeView::ForLoop { var_name: ts[p + 1].lexeme@, iterable: it, body, span: Span::zero() },
                        q,
                    )),
                    Err(m) => Err(m),
                }
            },
            Err(m) => Err(m),
        }
    }
}

/// `while cond` and its block; the token at `p` is `while`.
pub open spec fn while_at(ts: Seq<Token>, p: int) -> Result<(NodeView, int), Seq<char>>
    decreases ts.len() - p, 25nat,
{
    if !(0 <= p < ts.len() - 1) {
        Err(seq![])
    } else {
        match expr_at(ts, p + 1) {
            Ok((c, p1)) => if !(p < p1 < ts.len()) {
                Err(seq![])
            } else if !(tok(ts, p1) is Newline) {
                Err(missing(ts, p1, "Expected newline"@))
            } else {
                match indented_at(ts, p1 + 1, true, "Expected block"@) {
                    Ok((body, q)) => Ok((NodeView::WhileLoop { condition: c, body, span: Span::zero() }, q)),
                    Err(m) => Err(m),
                }
            },
            Err(m) => Err(m),
        }
    }
}

/// `return`, with a value unless the line ends there; the token at `p` is
/// `return`.
pub open spec fn return_at(ts: Seq<Token>, p: int) -> Result<(NodeView, int), Seq<char>> {
    if !(0 <= p < ts.len() - 1) {
        Err(seq![])
    } else {
        let value = if tok(ts, p + 1) is Newline {
            Ok((None, p + 1))
        } else {
            match expr_at(ts, p + 1) {
                Ok((v, q)) => Ok((Some(v), q)),
                Err(m) => Err(m),
            }
        };
        match value {
            Ok((v, q)) => if !(p < q < ts.len()) {
                Err(seq![])
            } else if tok(ts, q) is Newline {
                Ok((NodeView::Return { value: v, span: Span::zero() }, q + 1))
            } else {
                Err(missing(ts, q, "Expected newline"@))
            },
            Err(m) => Err(m),
        }
    }
}

/// A program: its nodes, after those in `acc`, with blank lines skipped, up
/// to `Eof`.
pub open spec fn program_at(ts: Seq<Token>, p: int, acc: Seq<NodeView>) -> Result<(Seq<NodeView>, int), Seq<char>>
    decreases ts.len() - p,
{
    if !(0 <= p < ts.len()) {
        Err(seq![])
    } else if tok(ts, p) is Eof {
        Ok((acc, p))
    } else if tok(ts, p) is Newline {
        program_at(ts, p + 1, acc)
    } else {
        match node_at(ts, p) {
            Ok((n, q)) => if p < q <= ts.len() { program_at(ts, q, acc.push(n)) } else { Err(seq![]) },
            Err(m) => Err(m),
        }
    }
}

/// "Expected expression at line L (found <kind>)" for token `t`.
fn expected_expression_message(t: &Token) -> (m: String)
    ensures
        m@ == expected_expression(*t),
{
    let mut m = owned("Expected expression at line ");
    m.append(decimal_string(t.span.line as u64).as_str());
    m.append(" (found ");
    m.append(kind_text(&t.kind).as_str());
    m.append(")");
    proof {
        assert(m@ =~= expected_expression(*t));
    }
    m
}

/// Different operator tokens stand for different operators, whatever their
/// levels.
pub proof fn lemma_level_ops_distinct(l1: int, l2: int, k1: TokenKind, k2: TokenKind)
    ensures
        level_op(l1, k1) matches Some(o1) && level_op(l2, k2) matches Some(o2) && o1 == o2 ==> k1 == k2,
{
}

/// Both parsers rank the operators alike: an operator of level `l` here has
/// binding power `l + 1` in the compiler's parser.
pub proof fn lemma_level_op_agrees(l: int, k: TokenKind)
    requires
        0 <= l <= 3,
    ensures
        level_op(l, k) is Some ==> (crate::parser::parser::binop_of(k) matches Some((pw, _)) && pw == l + 1),
{
}

/// What each operator token stands for, at its level.
pub proof fn lemma_level_meanings()
    ensures
        level_op(0, TokenKind::EqualEqual) == Some(BinOp::Eq),
        level_op(0, TokenKind::BangEqual) == Some(BinOp::NotEq),
        level_op(1, TokenKind::Less) == Some(BinOp::Lt),
        level_op(1, TokenKind::Greater) == Some(BinOp::Gt),
        level_op(1, TokenKind::LessEqual) == Some(BinOp::LtEq),
        level_op(1, TokenKind::GreaterEqual) == Some(BinOp::GtEq),
        level_op(2, TokenKind::Plus) == Some(BinOp::Add),
        level_op(2, TokenKind::Minus) == Some(BinOp::Sub),
        level_op(3, TokenKind::Star) == Some(BinOp::Mul),
        level_op(3, TokenKind::Slash) == Some(BinOp::Div),
{
}

/// `a / b` is the quotient of the two atoms, the line ending after them.
pub proof fn lemma_quotient(ts: Seq<Token>, p: int)
    requires
        0 <= p,
        p + 3 < ts.len(),
        atom_view(ts[p]) is Some,
        tok(ts, p + 1) is Slash,
        atom_view(ts[p + 2]) is Some,
        tok(ts, p + 3) is Newline,
    ensures
        expr_at(ts, p) == Ok::<(ExprView, int), Seq<char>>((
            ExprView::BinaryOp {
                left: Box::new(atom_view(ts[p])->0),
                op: BinOp::Div,
                right: Box::new(atom_view(ts[p + 2])->0),
                span: Span::zero(),
            },
            p + 3,
        )),
{
    let a = atom_view(ts[p])->0;
    let b = atom_view(ts[p + 2])->0;
    let ab = ExprView::BinaryOp { left: Box::new(a), op: BinOp::Div, right: Box::new(b), span: Span::zero() };
    let r = Ok::<(ExprView, int), Seq<char>>((ab, p + 3));
    lemma_atom(ts, p);
    lemma_atom(ts, p + 2);
    assert(level_loop(ts, p + 3, 3, ab) == r);
    assert(level_loop(ts, p + 1, 3, a) == r);
    assert(level_at(ts, p, 3) == r);
    assert(level_loop(ts, p + 3, 2, ab) == r);
    assert(level_at(ts, p, 2) == r);
    assert(level_loop(ts, p + 3, 1, ab) == r);
    assert(level_at(ts, p, 1) == r);
    assert(level_loop(ts, p + 3, 0, ab) == r);
    assert(level_at(ts, p, 0) == r);
}

/// An atom followed by a token that is neither a call, member access nor
/// index is an operand on its own.
proof fn lemma_atom(ts: Seq<Token>, i: int)
    requires
        0 <= i,
        i + 1 < ts.len(),
        atom_view(ts[i]) is Some,
        !(tok(ts, i + 1) is LeftParen),
        !(tok(ts, i + 1) is Dot),
        !(tok(ts, i + 1) is LeftBracket),
    ensures
        unary_at(ts, i) == Ok::<(ExprView, int), Seq<char>>((atom_view(ts[i])->0, i + 1)),
{
    assert(postfix_at(ts, i + 1, atom_view(ts[i])->0) == Ok::<(ExprView, int), Seq<char>>((atom_view(ts[i])->0, i + 1)));
    assert(primary_at(ts, i) == Ok::<(ExprView, int), Seq<char>>((atom_view(ts[i])->0, i + 1)));
}

/// `r` is what the spec `s` says for an expression: the parsed expression
/// and the position after it, or the same error message.
pub open spec fn expr_result(r: Result<Expr, String>, s: Result<(ExprView, int), Seq<char>>, pos: int) -> bool {
    match s {
        Ok((v, np)) => r is Ok && expr_view(r->Ok_0) == v && pos == np,
        Err(m) => r is Err && r->Err_0@ == m,
    }
}


pub struct Parser {
    tokens: Vec<Token>,
    current: usize,
}

impl Parser {
    /// The tokens being parsed.
    pub closed spec fn tokens(self) -> Seq<Token> {
        self.tokens@
    }

    /// Index of the next token to read.
    pub closed spec fn position(self) -> nat {
        self.current as nat
    }

    /// Parsing can start: tokens that end with `Eof`, and a position in them.
    pub open spec fn ready(self) -> bool {
        parser_input(self.tokens()) && self.position() < self.tokens().len()
    }

    /// Whether the next token is the final `Eof`.
    pub open spec fn done(self) -> bool {
        self.tokens()[self.position() as int].kind is Eof
    }

    /// The invariant of every parsing step: ready, and either some token has
    /// been read or the stream holds more than `Eof`.
    closed spec fn inv(self) -> bool {
        &&& parser_input(self.tokens@)
        &&& self.current < self.tokens@.len()
        &&& (self.current >= 1 || !(self.tokens@[0].kind is Eof))
    }

    closed spec fn at_end(self) -> bool {
        self.tokens@[self.current as int].kind is Eof
    }

    /// What a step keeps: the tokens, the invariant, and no going back.
    closed spec fn step(self, next: Parser) -> bool {
        &&& next.inv()
        &&& next.tokens@ == self.tokens@
        &&& next.current >= self.current
    }

    pub fn new(tokens: Vec<Token>) -> (p: Self)
        ensures
            p.tokens() == tokens@,
            p.position() == 0,
    {
        Self { tokens, current: 0 }
    }

    /// Parses the whole program, skipping blank lines between nodes: the
    /// nodes are those the grammar (`program_at`) reads from the tokens, and
    /// parsing fails exactly where the grammar does, with its message.
    #[verifier::spinoff_prover]
    #[verifier::rlimit(40)]
    pub fn parse(&mut self) -> (r: Result<Program, String>)
        requires
            old(self).ready(),
        ensures
            final(self).ready(),
            final(self).tokens() == old(self).tokens(),
            final(self).position() >= old(self).position(),
            r is Ok ==> final(self).done(),
            match program_at(old(self).tokens(), old(self).position() as int, seq![]) {
                Ok((ns, np)) => r is Ok && nodes_view(r->Ok_0.nodes@) == ns && final(self).position() == np,
                Err(m) => r is Err && r->Err_0@ == m,
            },
    {
        let ghost ts = self.tokens@;
        let ghost c0 = self.current as int;
        let mut nodes: Vec<Node> = Vec::new();
        assert(nodes_view(nodes@) =~= seq![]);
        while !self.is_at_end()
            invariant
                parser_input(self.tokens@),
                self.current < self.tokens@.len(),
                self.tokens@ == old(self).tokens@,
                ts == self.tokens@,
                c0 == old(self).current,
                self.current >= old(self).current,
                program_at(ts, c0, seq![]) == program_at(ts, self.current as int, nodes_view(nodes@)),
            decreases self.tokens@.len() - self.current,
        {
            let ghost it0 = self.current as int;
            // skip extra newlines at the top level
            if self.match_kind(TokenKind::Newline) {
                continue;
            }
            let node = match self.parse_node() {
                Ok(n) => n,
                Err(e) => {
                    assert(program_at(ts, it0, nodes_view(nodes@)) matches Err(m) && m == e@);
                    return Err(e);
                },
            };
            proof {
                lemma_nodes_view_push(nodes@, node);
            }
            nodes.push(node);
        }
        Ok(Program { nodes })
    }

    fn parse_node(&mut self) -> (r: Result<Node, String>)
        requires
            old(self).inv(),
            !old(self).at_end(),
        ensures
            old(self).step(*final(self)),
            r is Ok ==> final(self).current > old(self).current,
            match node_at(old(self).tokens@, old(self).current as int) {
                Ok((n, np)) => r is Ok && node_view(r->Ok_0) == n && final(self).current == np,
                Err(m) => r is Err && r->Err_0@ == m,
            },
        decreases old(self).tokens@.len() - old(self).current, 30nat,
    {
        let ghost ts = self.tokens@;
        let ghost c0 = self.current as int;
        // Collect decorators
        let mut decorators: Vec<Decorator> = Vec::new();
        assert(decorators_view(decorators@) =~= seq![]);
        while self.match_kind(TokenKind::At)
            invariant
                old(self).step(*self),
                ts == self.tokens@,
                c0 == old(self).current,
                self.current > old(self).current || !self.at_end(),
                decorators_at(ts, c0, seq![]) == decorators_at(ts, self.current as int, decorators_view(decorators@)),
            decreases self.tokens@.len() - self.current,
        {
            let ghost it0 = self.current - 1;
            let d = match self.parse_decorator() {
                Ok(d) => d,
                Err(e) => {
                    assert(decorators_at(ts, it0, decorators_view(decorators@)) matches Err(m) && m == e@);
                    return Err(e);
                },
            };
            proof {
                lemma_decorators_view_push(decorators@, d);
            }
            decorators.push(d);
            match self.consume(TokenKind::Newline, "Expected newline after decorator") {
                Ok(_) => {},
                Err(e) => {
                    return Err(e);
                },
            }
        }
        let k = self.peek_kind();
        match k {
            TokenKind::KwImport => Ok(Node::Import(self.parse_import(false)?)),
            TokenKind::KwFrom => Ok(Node::Import(self.parse_import(true)?)),
            TokenKind::KwIf => self.parse_if_chain(),
            TokenKind::KwFor => self.parse_for_loop(),
            TokenKind::KwWhile => self.parse_while_loop(),
            TokenKind::KwReturn => self.parse_return(),
            TokenKind::KwExport => {
                self.advance();  // consume 'export'
                // After export, we expect a variable declaration
                let v = self.parse_variable_exported(decorators)?;
                Ok(Node::Variable(v))
            },
            _ => {
                if k.is_type_keyword() {
                    let is_var_decl = if matches!(k, TokenKind::Identifier(_)) {
                        // An identifier starts a declaration only when another identifier follows
                        matches!(self.peek_next().kind, TokenKind::Identifier(_))
                    } else {
                        // Built-in types (int, func, object) are always variable declarations
                        true
                    };
                    if is_var_decl {
                        let v = self.parse_variable(decorators)?;
                        Ok(Node::Variable(v))
                    } else {
                        // Assignment or Expression Statement
                        self.parse_statement_tail()
                    }
                } else {
                    // Fallback for literals or other expressions
                    self.parse_statement_tail()
                }
            },
        }
    }

    /// An expression statement, or an assignment when `:`, `+=`, `-=`, `*=`
    /// or `/=` follows the first expression.
    fn parse_statement_tail(&mut self) -> (r: Result<Node, String>)
        requires
            old(self).inv(),
        ensures
            old(self).step(*final(self)),
            r is Ok ==> final(self).current > old(self).current,
            r matches Ok(Node::Assignment(a)) ==> a.span == a.target.spec_span(),
            match statement_at(old(self).tokens@, old(self).current as int) {
                Ok((n, np)) => r is Ok && node_view(r->Ok_0) == n && final(self).current == np,
                Err(m) => r is Err && r->Err_0@ == m,
            },
        decreases old(self).tokens@.len() - old(self).current, 19nat,
    {
        let ghost ts = self.tokens@;
        let expr = self.parse_expr()?;
        let k = self.peek_kind();
        let op = if self.at_end_exec() {
            None
        } else {
            match k {
                TokenKind::Colon => Some(AssignOp::Assign),
                TokenKind::PlusEqual => Some(AssignOp::AddAssign),
                TokenKind::MinusEqual => Some(AssignOp::SubAssign),
                TokenKind::StarEqual => Some(AssignOp::MulAssign),
                TokenKind::SlashEqual => Some(AssignOp::DivAssign),
                _ => None,
            }
        };
        assert(op == assign_op_of(tok(ts, self.current as int)));
        match op {
            Some(op) => {
                self.advance();
                let value = self.parse_expr()?;
                self.consume(TokenKind::Newline, "Expected newline after assignment")?;
                let span = expr.span();
                proof {
                    lemma_view_span(expr);
                }
                Ok(Node::Assignment(Assignment { target: expr, op, value, span }))
            },
            None => {
                self.consume(TokenKind::Newline, "Expected newline after expression")?;
                Ok(Node::ExprStmt(expr))
            },
        }
    }

    fn parse_variable(&mut self, decorators: Vec<Decorator>) -> (r: Result<Variable, String>)
        requires
            old(self).inv(),
        ensures
            old(self).step(*final(self)),
            r is Ok ==> final(self).current > old(self).current,
            r matches Ok(v) ==> !v.is_export && v.decorators == decorators,
            match variable_at(old(self).tokens@, old(self).current as int, decorators_view(decorators@), false) {
                Ok((v, np)) => r is Ok && variable_view(r->Ok_0) == v && final(self).current == np,
                Err(m) => r is Err && r->Err_0@ == m,
            },
        decreases old(self).tokens@.len() - old(self).current, 18nat,
    {
        self.parse_variable_inner(decorators, false)
    }

    fn parse_variable_exported(&mut self, decorators: Vec<Decorator>) -> (r: Result<Variable, String>)
        requires
            old(self).inv(),
        ensures
            old(self).step(*final(self)),
            r is Ok ==> final(self).current > old(self).current,
            r matches Ok(v) ==> v.is_export && v.decorators == decorators,
            match variable_at(old(self).tokens@, old(self).current as int, decorators_view(decorators@), true) {
                Ok((v, np)) => r is Ok && variable_view(r->Ok_0) == v && final(self).current == np,
                Err(m) => r is Err && r->Err_0@ == m,
            },
        decreases old(self).tokens@.len() - old(self).current, 18nat,
    {
        self.parse_variable_inner(decorators, true)
    }

    #[verifier::rlimit(60)]
    fn parse_variable_inner(&mut self, decorators: Vec<Decorator>, is_export: bool) -> (r: Result<Variable, String>)
        requires
            old(self).inv(),
        ensures
            old(self).step(*final(self)),
            r is Ok ==> final(self).current > old(self).current,
            r matches Ok(v) ==> {
                &&& v.is_export == is_export
                &&& v.decorators == decorators
                &&& v.span.start == old(self).tokens@[old(self).current as int].span.start
                &&& v.span.line == 0 && v.span.column == 0
            },
            match variable_at(old(self).tokens@, old(self).current as int, decorators_view(decorators@), is_export) {
                Ok((v, np)) => r is Ok && variable_view(r->Ok_0) == v && final(self).current == np,
                Err(m) => r is Err && r->Err_0@ == m,
            },
        decreases old(self).tokens@.len() - old(self).current, 17nat,
    {
        let ghost ts = self.tokens@;
        let ghost c0 = self.current as int;
        let span_start = self.tokens[self.current].span.start;

        let is_const = self.match_kind(TokenKind::KwConst);
        let is_ref = self.match_kind(TokenKind::KwRef);
        let ghost p2 = self.current as int;
        let type_expr = self.parse_type_expr()?;
        let ghost p3 = self.current as int;

        let name_token = self.consume_ident("Expected variable name")?;
        let name = name_token.lexeme;
        let ghost p4 = self.current as int;

        let uses = self.parse_uses()?;
        let ghost p5 = self.current as int;
        let arguments = self.parse_opt_args()?;
        let ghost p6 = self.current as int;
        let return_type = self.parse_opt_return()?;
        let ghost p7 = self.current as int;
        let value = self.parse_opt_value()?;
        let ghost p8 = self.current as int;

        // Must end with newline
        self.consume(TokenKind::Newline, "Expected newline after variable declaration")?;
        self.skip_newlines();
        let ghost p9 = self.current as int;
        assert(p9 == skip_newlines(ts, p8 + 1));
        let content = self.parse_content()?;

        let end = self.previous().span.end;
        Ok(Variable {
            type_expr,
            name,
            arguments,
            value,
            content,
            return_type,
            decorators,
            uses,
            is_const,
            is_export,
            is_ref,
            span: Span { start: span_start, end, line: 0, column: 0 },
        })
    }

    /// `uses name`, if present.
    fn parse_uses(&mut self) -> (r: Result<Vec<String>, String>)
        requires
            old(self).inv(),
        ensures
            old(self).step(*final(self)),
            match uses_at(old(self).tokens@, old(self).current as int) {
                Ok((u, np)) => r is Ok && strings_view(r->Ok_0@) == u && final(self).current == np,
                Err(m) => r is Err && r->Err_0@ == m,
            },
    {
        let mut uses: Vec<String> = Vec::new();
        assert(strings_view(uses@) =~= seq![]);
        if self.match_kind(TokenKind::KwUses) {
            let t = self.consume_ident("Expected identifier after 'uses'")?;
            proof {
                lemma_strings_view_push(uses@, t.lexeme);
            }
            uses.push(t.lexeme);
        }
        Ok(uses)
    }

    /// `(arguments)`, if present.
    fn parse_opt_args(&mut self) -> (r: Result<Option<ArgList>, String>)
        requires
            old(self).inv(),
        ensures
            old(self).step(*final(self)),
            match opt_args_at(old(self).tokens@, old(self).current as int) {
                Ok((l, np)) => r is Ok && arg_list_view(r->Ok_0) == l && final(self).current == np,
                Err(m) => r is Err && r->Err_0@ == m,
            },
    {
        if self.match_kind(TokenKind::LeftParen) {
            let l = self.parse_arg_list()?;
            Ok(Some(l))
        } else {
            Ok(None)
        }
    }

    /// `-> type`, if present.
    fn parse_opt_return(&mut self) -> (r: Result<Option<TypeExpr>, String>)
        requires
            old(self).inv(),
        ensures
            old(self).step(*final(self)),
            match opt_ret_at(old(self).tokens@, old(self).current as int) {
                Ok((t, np)) => r is Ok && opt_type_view(r->Ok_0) == t && final(self).current == np,
                Err(m) => r is Err && r->Err_0@ == m,
            },
    {
        if self.match_kind(TokenKind::Arrow) {
            let t = self.parse_type_expr()?;
            Ok(Some(t))
        } else {
            Ok(None)
        }
    }

    /// `: value`, if present.
    fn parse_opt_value(&mut self) -> (r: Result<Option<Expr>, String>)
        requires
            old(self).inv(),
        ensures
            old(self).step(*final(self)),
            match opt_value_at(old(self).tokens@, old(self).current as int) {
                Ok((v, np)) => r is Ok && opt_expr_view(r->Ok_0) == v && final(self).current == np,
                Err(m) => r is Err && r->Err_0@ == m,
            },
    {
        if self.match_kind(TokenKind::Colon) {
            let e = self.parse_expr()?;
            Ok(Some(e))
        } else {
            Ok(None)
        }
    }

    /// A declaration's content: an indented block, if one starts here.
    fn parse_content(&mut self) -> (r: Result<Vec<Node>, String>)
        requires
            old(self).inv(),
        ensures
            old(self).step(*final(self)),
            match content_at(old(self).tokens@, old(self).current as int) {
                Ok((c, np)) => r is Ok && nodes_view(r->Ok_0@) == c && final(self).current == np,
                Err(m) => r is Err && r->Err_0@ == m,
            },
        decreases old(self).tokens@.len() - old(self).current, 16nat,
    {
        let mut content: Vec<Node> = Vec::new();
        assert(nodes_view(content@) =~= seq![]);
        if self.match_kind(TokenKind::Indent) {
            content = self.parse_block_body()?;
            self.consume(TokenKind::Dedent, "Expected dedent after block")?;
        }
        Ok(content)
    }

    /// Skips blank lines.
    fn skip_newlines(&mut self)
        requires
            old(self).inv(),
        ensures
            old(self).step(*final(self)),
            final(self).current == skip_newlines(old(self).tokens@, old(self).current as int),
    {
        let ghost ts = self.tokens@;
        let ghost c0 = self.current as int;
        while self.match_kind(TokenKind::Newline)
            invariant
                old(self).step(*self),
                ts == self.tokens@,
                skip_newlines(ts, c0) == skip_newlines(ts, self.current as int),
            decreases self.tokens@.len() - self.current,
        {
        }
    }

    /// The nodes of a block, up to (not including) its `Dedent`; blank lines
    /// are skipped.
    fn parse_block_body(&mut self) -> (r: Result<Vec<Node>, String>)
        requires
            old(self).inv(),
        ensures
            old(self).step(*final(self)),
            match block_at(old(self).tokens@, old(self).current as int, seq![]) {
                Ok((c, np)) => r is Ok && nodes_view(r->Ok_0@) == c && final(self).current == np,
                Err(m) => r is Err && r->Err_0@ == m,
            },
        decreases old(self).tokens@.len() - old(self).current, 31nat,
    {
        let ghost ts = self.tokens@;
        let ghost c0 = self.current as int;
        let mut body: Vec<Node> = Vec::new();
        assert(nodes_view(body@) =~= seq![]);
        while !self.check(TokenKind::Dedent) && !self.is_at_end()
            invariant
                old(self).step(*self),
                ts == self.tokens@,
                c0 == old(self).current,
                block_at(ts, c0, seq![]) == block_at(ts, self.current as int, nodes_view(body@)),
            decreases self.tokens@.len() - self.current,
        {
            let ghost it0 = self.current as int;
            if self.match_kind(TokenKind::Newline) {
                continue;
            }
            let n = match self.parse_node() {
                Ok(n) => n,
                Err(e) => {
                    assert(block_at(ts, it0, nodes_view(body@)) matches Err(m) && m == e@);
                    return Err(e);
                },
            };
            proof {
                lemma_nodes_view_push(body@, n);
            }
            body.push(n);
        }
        Ok(body)
    }

    /// `import m` or `from m import a, b` / `from m import *`.
    fn parse_import(&mut self, is_from: bool) -> (r: Result<ImportStmt, String>)
        requires
            old(self).inv(),
            !old(self).at_end(),
        ensures
            old(self).step(*final(self)),
            r is Ok ==> final(self).current > old(self).current,
            r matches Ok(i) ==> i.is_from == is_from && (is_from ==> i.items@.len() >= 1)
                && (!is_from ==> i.items@.len() == 0),
            match import_at(old(self).tokens@, old(self).current as int, is_from) {
                Ok((i, np)) => r is Ok && import_view(r->Ok_0) == i && final(self).current == np,
                Err(m) => r is Err && r->Err_0@ == m,
            },
        decreases old(self).tokens@.len() - old(self).current, 1nat,
    {
        let ghost ts = self.tokens@;
        let ghost c0 = self.current as int;
        self.advance();  // consume 'import' or 'from'
        let start = self.previous().span.start;

        let module_name: String;
        let mut items: Vec<String> = Vec::new();
        assert(strings_view(items@) =~= seq![]);

        if is_from {
            let name_token = self.consume_ident("Expected module name after 'from'")?;
            module_name = name_token.lexeme;
            self.consume(TokenKind::KwImport, "Expected 'import' after module name")?;
            let ghost q0 = self.current as int;
            assert(forall|m: Seq<char>| items_at(ts, q0, seq![]) == Err::<(Seq<Seq<char>>, int), Seq<char>>(m)
                && !(q0 < ts.len() && tok(ts, q0) is Star) ==> import_at(ts, c0, is_from) == Err::<(ImportView, int), Seq<char>>(m));

            if self.match_kind(TokenKind::Star) {
                let star = owned("*");
                proof {
                    lemma_strings_view_push(items@, star);
                }
                items.push(star);
            } else {
                loop
                    invariant_except_break
                        items_at(ts, q0, seq![]) == items_at(ts, self.current as int, strings_view(items@)),
                    invariant
                        old(self).step(*self),
                        ts == self.tokens@,
                        self.current > old(self).current,
                        self.current >= q0,
                        q0 == c0 + 3,
                        c0 == old(self).current,
                        ts == old(self).tokens@,
                        !(q0 < ts.len() && tok(ts, q0) is Star),
                        forall|m: Seq<char>| items_at(ts, q0, seq![]) == Err::<(Seq<Seq<char>>, int), Seq<char>>(m)
                            ==> import_at(ts, c0, is_from) == Err::<(ImportView, int), Seq<char>>(m),
                    ensures
                        old(self).step(*self),
                        self.current > old(self).current,
                        items@.len() >= 1,
                        items_at(ts, q0, seq![]) == Ok::<_, Seq<char>>((strings_view(items@), self.current as int)),
                    decreases self.tokens@.len() - self.current,
                {
                    let ghost it0 = self.current as int;
                    let item_token = match self.consume_ident("Expected item to import") {
                        Ok(t) => t,
                        Err(e) => {
                            assert(items_at(ts, it0, strings_view(items@)) matches Err(m) && m == e@);
                            return Err(e);
                        },
                    };
                    proof {
                        lemma_strings_view_push(items@, item_token.lexeme);
                    }
                    items.push(item_token.lexeme);
                    if !self.match_kind(TokenKind::Comma) {
                        break;
                    }
                }
            }
        } else {
            let name_token = self.consume_ident("Expected module name after 'import'")?;
            module_name = name_token.lexeme;
        }

        self.consume(TokenKind::Newline, "Expected newline after import statement")?;
        let end = self.previous().span.end;
        Ok(ImportStmt { module_name, items, is_from, span: Span { start, end, line: 0, column: 0 } })
    }

    /// An indented block after its header line: blank lines, `Indent`, the
    /// nodes, `Dedent`.
    fn parse_indented_block(&mut self, skip_blank: bool, indent_err: &str) -> (r: Result<Vec<Node>, String>)
        requires
            old(self).inv(),
        ensures
            old(self).step(*final(self)),
            r is Ok ==> final(self).current > old(self).current,
            match indented_at(old(self).tokens@, old(self).current as int, skip_blank, indent_err@) {
                Ok((c, np)) => r is Ok && nodes_view(r->Ok_0@) == c && final(self).current == np,
                Err(m) => r is Err && r->Err_0@ == m,
            },
        decreases old(self).tokens@.len() - old(self).current, 22nat,
    {
        if skip_blank {
            self.skip_newlines();
        }
        self.consume(TokenKind::Indent, indent_err)?;
        let body = self.parse_block_body()?;
        self.consume(TokenKind::Dedent, "Expected dedent")?;
        Ok(body)
    }

    /// Any `elif cond` lines after an `if` block, each with its block.
    #[verifier::spinoff_prover]
    #[verifier::rlimit(40)]
    fn parse_elifs(&mut self) -> (r: Result<Vec<(Expr, Vec<Node>)>, String>)
        requires
            old(self).inv(),
        ensures
            old(self).step(*final(self)),
            final(self).current >= old(self).current,
            match elifs_at(old(self).tokens@, old(self).current as int, seq![]) {
                Ok((e, np)) => r is Ok && branches_view(r->Ok_0@) == e && final(self).current == np,
                Err(m) => r is Err && r->Err_0@ == m,
            },
        decreases old(self).tokens@.len() - old(self).current, 24nat,
    {
        let ghost ts = self.tokens@;
        let ghost p2 = self.current as int;
        let mut elif_branches: Vec<(Expr, Vec<Node>)> = Vec::new();
        assert(branches_view(elif_branches@) =~= seq![]);
        while self.match_kind(TokenKind::KwElif)
            invariant
                old(self).step(*self),
                ts == self.tokens@,
                self.current >= old(self).current,
                p2 == old(self).current,
                ts == old(self).tokens@,
                elifs_at(ts, p2, seq![]) == elifs_at(ts, self.current as int, branches_view(elif_branches@)),
            decreases self.tokens@.len() - self.current,
        {
            let ghost it0 = self.current - 1;
            assert(tok(ts, it0) is KwElif);
            let cond = match self.parse_expr() {
                Ok(c) => c,
                Err(e) => {
                    assert(elifs_at(ts, it0, branches_view(elif_branches@)) matches Err(m) && m == e@);
                    return Err(e);
                },
            };
            match self.consume(TokenKind::Newline, "Expected newline") {
                Ok(_) => {},
                Err(e) => {
                    assert(elifs_at(ts, it0, branches_view(elif_branches@)) matches Err(m) && m == e@);
                    return Err(e);
                },
            }
            let body = match self.parse_indented_block(true, "Expected block") {
                Ok(b) => b,
                Err(e) => {
                    assert(elifs_at(ts, it0, branches_view(elif_branches@)) matches Err(m) && m == e@);
                    return Err(e);
                },
            };
            let pair = (cond, body);
            proof {
                lemma_branches_view_push(elif_branches@, pair);
            }
            elif_branches.push(pair);
        }
        Ok(elif_branches)
    }

    /// An optional `else` line with its block.
    fn parse_else(&mut self) -> (r: Result<Option<Vec<Node>>, String>)
        requires
            old(self).inv(),
        ensures
            old(self).step(*final(self)),
            final(self).current >= old(self).current,
            match else_at(old(self).tokens@, old(self).current as int) {
                Ok((e, np)) => r is Ok && (match r->Ok_0 {
                    Some(b) => Some(nodes_view(b@)),
                    None => None,
                }) == e && final(self).current == np,
                Err(m) => r is Err && r->Err_0@ == m,
            },
        decreases old(self).tokens@.len() - old(self).current, 24nat,
    {
        if self.match_kind(TokenKind::KwElse) {
            self.consume(TokenKind::Newline, "Expected newline")?;
            let body = self.parse_indented_block(false, "Expected block")?;
            Ok(Some(body))
        } else {
            Ok(None)
        }
    }

    #[verifier::rlimit(40)]
    fn parse_if_chain(&mut self) -> (r: Result<Node, String>)
        requires
            old(self).inv(),
            !old(self).at_end(),
            old(self).tokens@[old(self).current as int].kind is KwIf,
        ensures
            old(self).step(*final(self)),
            r is Ok ==> final(self).current > old(self).current,
            match if_at(old(self).tokens@, old(self).current as int) {
                Ok((n, np)) => r is Ok && node_view(r->Ok_0) == n && final(self).current == np,
                Err(m) => r is Err && r->Err_0@ == m,
            },
        decreases old(self).tokens@.len() - old(self).current, 25nat,
    {
        let ghost ts = self.tokens@;
        let ghost c0 = self.current as int;
        self.advance();  // consume 'if'
        let condition = self.parse_expr()?;
        self.consume(TokenKind::Newline, "Expected newline after if condition")?;
        let then_body = self.parse_indented_block(true, "Expected block after if")?;
        let ghost p2 = self.current as int;

        let elif_branches = self.parse_elifs()?;
        let ghost p3 = self.current as int;

        let else_body = self.parse_else()?;

        Ok(Node::IfChain(IfChain { condition, then_body, elif_branches, else_body, span: Span { start: 0, end: 0, line: 0, column: 0 } }))
    }

    fn parse_for_loop(&mut self) -> (r: Result<Node, String>)
        requires
            old(self).inv(),
            !old(self).at_end(),
            old(self).tokens@[old(self).current as int].kind is KwFor,
        ensures
            old(self).step(*final(self)),
            r is Ok ==> final(self).current > old(self).current,
            match for_at(old(self).tokens@, old(self).current as int) {
                Ok((n, np)) => r is Ok && node_view(r->Ok_0) == n && final(self).current == np,
                Err(m) => r is Err && r->Err_0@ == m,
            },
        decreases old(self).tokens@.len() - old(self).current, 25nat,
    {
        self.advance();  // 'for'
        let var_name = self.consume_ident("Expected loop variable")?.lexeme;
        self.consume(TokenKind::KwIn, "Expected 'in' after loop variable")?;
        let iterable = self.parse_expr()?;
        self.consume(TokenKind::Newline, "Expected newline after for condition")?;
        let body = self.parse_indented_block(true, "Expected block")?;
        Ok(Node::ForLoop(ForLoop { var_name, iterable, body, span: Span { start: 0, end: 0, line: 0, column: 0 } }))
    }

    fn parse_while_loop(&mut self) -> (r: Result<Node, String>)
        requires
            old(self).inv(),
            !old(self).at_end(),
            old(self).tokens@[old(self).current as int].kind is KwWhile,
        ensures
            old(self).step(*final(self)),
            r is Ok ==> final(self).current > old(self).current,
            match while_at(old(self).tokens@, old(self).current as int) {
                Ok((n, np)) => r is Ok && node_view(r->Ok_0) == n && final(self).current == np,
                Err(m) => r is Err && r->Err_0@ == m,
            },
        decreases old(self).tokens@.len() - old(self).current, 25nat,
    {
        self.advance();  // 'while'
        let condition = self.parse_expr()?;
        self.consume(TokenKind::Newline, "Expected newline")?;
        let body = self.parse_indented_block(true, "Expected block")?;
        Ok(Node::WhileLoop(WhileLoop { condition, body, span: Span { start: 0, end: 0, line: 0, column: 0 } }))
    }

    fn parse_return(&mut self) -> (r: Result<Node, String>)
        requires
            old(self).inv(),
            !old(self).at_end(),
            old(self).tokens@[old(self).current as int].kind is KwReturn,
        ensures
            old(self).step(*final(self)),
            r is Ok ==> final(self).current > old(self).current,
            match return_at(old(self).tokens@, old(self).current as int) {
                Ok((n, np)) => r is Ok && node_view(r->Ok_0) == n && final(self).current == np,
                Err(m) => r is Err && r->Err_0@ == m,
            },
        decreases old(self).tokens@.len() - old(self).current, 25nat,
    {
        self.advance();  // 'return'
        let mut value: Option<Expr> = None;
        if !self.check(TokenKind::Newline) {
            value = Some(self.parse_expr()?);
        }
        self.consume(TokenKind::Newline, "Expected newline")?;
        Ok(Node::Return(ReturnStmt { value, span: Span { start: 0, end: 0, line: 0, column: 0 } }))
    }

    // ── Components ──

    /// A type: a type keyword or identifier, then any number of `[]`. At an
/// `Eof` the token before it is read once more.
    fn parse_type_expr(&mut self) -> (r: Result<TypeExpr, String>)
        requires
            old(self).inv(),
        ensures
            old(self).step(*final(self)),
            r is Ok && !old(self).at_end() ==> final(self).current > old(self).current,
            !old(self).at_end() ==> (r matches Ok(t) ==> type_word(old(self).tokens@[old(self).current as int].kind)
                == Some(base_name(t))),
            type_word(old(self).tokens@[old(self).current as int].kind) is None && !old(self).at_end() ==> r is Err,
            match type_at(old(self).tokens@, old(self).current as int) {
                Ok((t, np)) => r is Ok && type_view(r->Ok_0) == t && final(self).current == np,
                Err(m) => r is Err && r->Err_0@ == m,
            },
        decreases old(self).tokens@.len() - old(self).current, 1nat,
    {
        let ghost ts = self.tokens@;
        let ghost c0 = self.current as int;
        self.advance();
        let base: String = match &self.previous().kind {
            TokenKind::KwInt => owned("int"),
            TokenKind::KwFloat => owned("float"),
            TokenKind::KwString => owned("string"),
            TokenKind::KwBool => owned("bool"),
            TokenKind::KwStruct => owned("struct"),
            TokenKind::KwObject => owned("object"),
            TokenKind::KwBehaviour => owned("behaviour"),
            TokenKind::KwFunc => owned("func"),
            TokenKind::KwBuffer => owned("buffer"),
            TokenKind::KwEnum => owned("enum"),
            TokenKind::KwTask => owned("task"),
            TokenKind::KwSignal => owned("signal"),
            TokenKind::KwVec2 => owned("vec2"),
            TokenKind::KwVec3 => owned("vec3"),
            TokenKind::KwVec4 => owned("vec4"),
            TokenKind::KwMat2 => owned("mat2"),
            TokenKind::KwMat3 => owned("mat3"),
            TokenKind::KwMat4 => owned("mat4"),
            TokenKind::KwTensor => owned("tensor"),
            TokenKind::Identifier(name) => name.clone(),
            _ => {
                return Err(owned("Expected a type"));
            },
        };
        let ghost word = base@;

        let mut ty = TypeExpr::Named(base);
        assert(type_at(ts, c0) == brackets_at(ts, self.current as int, type_view(ty)));

        while self.match_kind(TokenKind::LeftBracket)
            invariant
                old(self).step(*self),
                ts == self.tokens@,
                c0 == old(self).current,
                self.current > c0 || old(self).at_end(),
                base_name(ty) == word,
                !old(self).at_end() ==> type_word(ts[c0].kind) == Some(word),
                type_at(ts, c0) == brackets_at(ts, self.current as int, type_view(ty)),
            decreases self.tokens@.len() - self.current,
        {
            let ghost it0 = self.current - 1;
            assert(tok(ts, it0) is LeftBracket);
            match self.consume(TokenKind::RightBracket, "Expected ']' after '['") {
                Ok(_) => {},
                Err(e) => {
                    assert(brackets_at(ts, it0, type_view(ty)) matches Err(m) && m == e@);
                    return Err(e);
                },
            }
            ty = TypeExpr::Array(Box::new(ty));
        }

        Ok(ty)
    }

    /// A decorator after its `@`: a dotted path of identifiers.
    fn parse_decorator(&mut self) -> (r: Result<Decorator, String>)
        requires
            old(self).inv(),
            old(self).current >= 1,
        ensures
            old(self).step(*final(self)),
            r is Ok ==> final(self).current > old(self).current,
            r matches Ok(d) ==> d.path@.len() >= 1,
            match decorator_at(old(self).tokens@, old(self).current as int) {
                Ok((d, np)) => r is Ok && decorator_view(r->Ok_0) == d && final(self).current == np,
                Err(m) => r is Err && r->Err_0@ == m,
            },
        decreases old(self).tokens@.len() - old(self).current, 1nat,
    {
        let ghost ts = self.tokens@;
        let ghost c0 = self.current as int;
        let start = self.previous().span.start;
        let mut path: Vec<String> = Vec::new();
        let first = self.consume_ident("Expected identifier after '@'")?;
        proof {
            lemma_strings_view_push(path@, first.lexeme);
            assert(strings_view(path@) =~= seq![]);
        }
        path.push(first.lexeme);
        assert(decorator_at(ts, c0) == dots_at(ts, self.current as int, strings_view(path@), start));
        while self.match_kind(TokenKind::Dot)
            invariant
                old(self).step(*self),
                ts == self.tokens@,
                c0 == old(self).current,
                self.current > old(self).current,
                path@.len() >= 1,
                decorator_at(ts, c0) == dots_at(ts, self.current as int, strings_view(path@), start),
            decreases self.tokens@.len() - self.current,
        {
            let ghost it0 = self.current - 1;
            assert(tok(ts, it0) is Dot);
            let t = match self.consume_ident("Expected identifier after '.'") {
                Ok(t) => t,
                Err(e) => {
                    assert(dots_at(ts, it0, strings_view(path@), start) matches Err(m) && m == e@);
                    return Err(e);
                },
            };
            proof {
                lemma_strings_view_push(path@, t.lexeme);
            }
            path.push(t.lexeme);
        }
        let end = self.previous().span.end;
        Ok(Decorator { path, span: Span { start, end, line: 0, column: 0 } })
    }

    /// Arguments after their `(`, up to and including the `)`.
    fn parse_arg_list(&mut self) -> (r: Result<ArgList, String>)
        requires
            old(self).inv(),
            old(self).current >= 1,
        ensures
            old(self).step(*final(self)),
            r is Ok ==> final(self).current > old(self).current,
            match arg_list_at(old(self).tokens@, old(self).current as int) {
                Ok((l, np)) => r is Ok && arg_list_view(Some(r->Ok_0)) == Some(l) && final(self).current == np,
                Err(m) => r is Err && r->Err_0@ == m,
            },
        decreases old(self).tokens@.len() - old(self).current, 10nat,
    {
        let ghost ts = self.tokens@;
        let ghost c0 = self.current as int;
        let start = self.previous().span.start;
        let mut args: Vec<Arg> = Vec::new();

        if !self.check(TokenKind::RightParen) {
            loop
                invariant_except_break
                    args_at(ts, c0, seq![]) == args_at(ts, self.current as int, args_view(args@)),
                invariant
                    old(self).step(*self),
                    ts == self.tokens@,
                    c0 == old(self).current,
                    self.current >= old(self).current,
                    !(tok(ts, c0) is RightParen),
                    1 <= c0 < ts.len(),
                ensures
                    old(self).step(*self),
                    self.current > old(self).current || old(self).at_end(),
                    args_at(ts, c0, seq![]) == Ok::<_, Seq<char>>((args_view(args@), self.current as int)),
                decreases self.tokens@.len() - self.current,
            {
                let ghost it0 = self.current as int;
                let a = match self.parse_arg() {
                    Ok(a) => a,
                    Err(e) => {
                        assert(args_at(ts, it0, args_view(args@)) matches Err(m) && m == e@);
                        assert(arg_list_at(ts, c0) matches Err(m) && m == e@);
                        return Err(e);
                    },
                };
                proof {
                    lemma_args_view_push(args@, a);
                }
                args.push(a);
                if !self.match_kind(TokenKind::Comma) {
                    break;
                }
            }
        } else {
            assert(args_view(args@) =~= seq![]);
        }
        self.consume(TokenKind::RightParen, "Expected ')' after arguments")?;
        let end = self.previous().span.end;
        Ok(ArgList { args, span: Span { start, end, line: 0, column: 0 } })
    }

    /// One argument: typed (`int a`, `ref int a`), named (`w: 800`) or
    /// positional (an expression).
    fn parse_arg(&mut self) -> (r: Result<Arg, String>)
        requires
            old(self).inv(),
        ensures
            old(self).step(*final(self)),
            r is Ok && !old(self).at_end() ==> final(self).current > old(self).current,
            match arg_at(old(self).tokens@, old(self).current as int) {
                Ok((a, np)) => r is Ok && arg_view(r->Ok_0) == a && final(self).current == np,
                Err(m) => r is Err && r->Err_0@ == m,
            },
        decreases old(self).tokens@.len() - old(self).current, 9nat,
    {
        let mut is_typed = false;
        let n = self.tokens.len();
        let mut check_idx = self.current;
        let is_ref = if matches!(self.tokens[check_idx].kind, TokenKind::KwRef) {
            check_idx = check_idx + 1;
            true
        } else {
            false
        };

        if check_idx < self.tokens.len() && self.tokens[check_idx].kind.is_type_keyword() {
            if n - check_idx > 1 && matches!(self.tokens[check_idx + 1].kind, TokenKind::Identifier(_)) {
                is_typed = true;
            }
        }

        if is_typed {
            if is_ref {
                self.advance();
            }  // Consume 'ref'
            let ty = self.parse_type_expr()?;
            let name_tok = self.consume_ident("Expected parameter name")?;
            return Ok(Arg::Typed { ty, name: name_tok.lexeme, is_ref, span: name_tok.span });
        }
        // Check for Named (id = expr)

        if let TokenKind::Identifier(name) = self.peek_kind() {
            if matches!(self.peek_next().kind, TokenKind::Colon) {
                self.advance();  // id
                let start_span = self.previous().span;
                self.advance();  // :
                let value = self.parse_expr()?;
                return Ok(Arg::Named { name, value, span: start_span });
            }
        }
        // Positional

        let expr = self.parse_expr()?;
        Ok(Arg::Positional(expr))
    }

    // ── Expressions ──

    fn parse_expr(&mut self) -> (r: Result<Expr, String>)
        requires
            old(self).inv(),
        ensures
            old(self).step(*final(self)),
            r is Ok && !old(self).at_end() ==> final(self).current > old(self).current,
            expr_result(r, expr_at(old(self).tokens@, old(self).current as int), final(self).current as int),
        decreases old(self).tokens@.len() - old(self).current, 8nat,
    {
        self.parse_equality()
    }

    /// Comparisons joined by `==` / `!=`, grouped to the left.
    fn parse_equality(&mut self) -> (r: Result<Expr, String>)
        requires
            old(self).inv(),
        ensures
            old(self).step(*final(self)),
            r is Ok && !old(self).at_end() ==> final(self).current > old(self).current,
            expr_result(r, level_at(old(self).tokens@, old(self).current as int, 0), final(self).current as int),
        decreases old(self).tokens@.len() - old(self).current, 7nat,
    {
        let ghost ts = self.tokens@;
        let ghost c0 = self.current as int;
        let mut expr = self.parse_comparison()?;
        assert(level_at(ts, c0, 0) == level_loop(ts, self.current as int, 0, expr_view(expr)));
        loop
            invariant_except_break
                level_at(ts, c0, 0) == level_loop(ts, self.current as int, 0, expr_view(expr)),
            invariant
                old(self).step(*self),
                ts == self.tokens@,
                c0 == old(self).current,
                self.current > old(self).current || old(self).at_end(),
            ensures
                old(self).step(*self),
                self.current > old(self).current || old(self).at_end(),
                level_at(ts, c0, 0) == Ok::<_, Seq<char>>((expr_view(expr), self.current as int)),
            decreases self.tokens@.len() - self.current,
        {
            let op = if self.match_kind(TokenKind::EqualEqual) {
                BinOp::Eq
            } else if self.match_kind(TokenKind::BangEqual) {
                BinOp::NotEq
            } else {
                break;
            };
            let right = self.parse_comparison()?;
            expr = Expr::BinaryOp { left: Box::new(expr), op, right: Box::new(right), span: Span { start: 0, end: 0, line: 0, column: 0 } };
        }
        Ok(expr)
    }

    /// Terms joined by `<`, `>`, `<=`, `>=`, grouped to the left.
    fn parse_comparison(&mut self) -> (r: Result<Expr, String>)
        requires
            old(self).inv(),
        ensures
            old(self).step(*final(self)),
            r is Ok && !old(self).at_end() ==> final(self).current > old(self).current,
            expr_result(r, level_at(old(self).tokens@, old(self).current as int, 1), final(self).current as int),
        decreases old(self).tokens@.len() - old(self).current, 6nat,
    {
        let ghost ts = self.tokens@;
        let ghost c0 = self.current as int;
        let mut expr = self.parse_term()?;
        assert(level_at(ts, c0, 1) == level_loop(ts, self.current as int, 1, expr_view(expr)));
        loop
            invariant_except_break
                level_at(ts, c0, 1) == level_loop(ts, self.current as int, 1, expr_view(expr)),
            invariant
                old(self).step(*self),
                ts == self.tokens@,
                c0 == old(self).current,
                self.current > old(self).current || old(self).at_end(),
            ensures
                old(self).step(*self),
                self.current > old(self).current || old(self).at_end(),
                level_at(ts, c0, 1) == Ok::<_, Seq<char>>((expr_view(expr), self.current as int)),
            decreases self.tokens@.len() - self.current,
        {
            let op = if self.match_kind(TokenKind::Less) {
                BinOp::Lt
            } else if self.match_kind(TokenKind::Greater) {
                BinOp::Gt
            } else if self.match_kind(TokenKind::LessEqual) {
                BinOp::LtEq
            } else if self.match_kind(TokenKind::GreaterEqual) {
                BinOp::GtEq
            } else {
                break;
            };
            let right = self.parse_term()?;
            expr = Expr::BinaryOp { left: Box::new(expr), op, right: Box::new(right), span: Span { start: 0, end: 0, line: 0, column: 0 } };
        }
        Ok(expr)
    }

    /// Factors joined by `+` / `-`, grouped to the left.
    fn parse_term(&mut self) -> (r: Result<Expr, String>)
        requires
            old(self).inv(),
        ensures
            old(self).step(*final(self)),
            r is Ok && !old(self).at_end() ==> final(self).current > old(self).current,
            expr_result(r, level_at(old(self).tokens@, old(self).current as int, 2), final(self).current as int),
        decreases old(self).tokens@.len() - old(self).current, 5nat,
    {
        let ghost ts = self.tokens@;
        let ghost c0 = self.current as int;
        let mut expr = self.parse_factor()?;
        assert(level_at(ts, c0, 2) == level_loop(ts, self.current as int, 2, expr_view(expr)));
        loop
            invariant_except_break
                level_at(ts, c0, 2) == level_loop(ts, self.current as int, 2, expr_view(expr)),
            invariant
                old(self).step(*self),
                ts == self.tokens@,
                c0 == old(self).current,
                self.current > old(self).current || old(self).at_end(),
            ensures
                old(self).step(*self),
                self.current > old(self).current || old(self).at_end(),
                level_at(ts, c0, 2) == Ok::<_, Seq<char>>((expr_view(expr), self.current as int)),
            decreases self.tokens@.len() - self.current,
        {
            let op = if self.match_kind(TokenKind::Plus) {
                BinOp::Add
            } else if self.match_kind(TokenKind::Minus) {
                BinOp::Sub
            } else {
                break;
            };
            let right = self.parse_factor()?;
            expr = Expr::BinaryOp { left: Box::new(expr), op, right: Box::new(right), span: Span { start: 0, end: 0, line: 0, column: 0 } };
        }
        Ok(expr)
    }

    /// Unary expressions joined by `*` / `/`, grouped to the left.
    fn parse_factor(&mut self) -> (r: Result<Expr, String>)
        requires
            old(self).inv(),
        ensures
            old(self).step(*final(self)),
            r is Ok && !old(self).at_end() ==> final(self).current > old(self).current,
            expr_result(r, level_at(old(self).tokens@, old(self).current as int, 3), final(self).current as int),
        decreases old(self).tokens@.len() - old(self).current, 4nat,
    {
        let ghost ts = self.tokens@;
        let ghost c0 = self.current as int;
        let mut expr = self.parse_unary()?;
        assert(level_at(ts, c0, 3) == level_loop(ts, self.current as int, 3, expr_view(expr)));
        loop
            invariant_except_break
                level_at(ts, c0, 3) == level_loop(ts, self.current as int, 3, expr_view(expr)),
            invariant
                old(self).step(*self),
                ts == self.tokens@,
                c0 == old(self).current,
                self.current > old(self).current || old(self).at_end(),
            ensures
                old(self).step(*self),
                self.current > old(self).current || old(self).at_end(),
                level_at(ts, c0, 3) == Ok::<_, Seq<char>>((expr_view(expr), self.current as int)),
            decreases self.tokens@.len() - self.current,
        {
            let op = if self.match_kind(TokenKind::Star) {
                BinOp::Mul
            } else if self.match_kind(TokenKind::Slash) {
                BinOp::Div
            } else {
                break;
            };
            let right = self.parse_unary()?;
            expr = Expr::BinaryOp { left: Box::new(expr), op, right: Box::new(right), span: Span { start: 0, end: 0, line: 0, column: 0 } };
        }
        Ok(expr)
    }

    fn parse_unary(&mut self) -> (r: Result<Expr, String>)
        requires
            old(self).inv(),
        ensures
            old(self).step(*final(self)),
            r is Ok && !old(self).at_end() ==> final(self).current > old(self).current,
            expr_result(r, unary_at(old(self).tokens@, old(self).current as int), final(self).current as int),
        decreases old(self).tokens@.len() - old(self).current, 3nat,
    {
        let minus = self.match_kind(TokenKind::Minus);
        if minus || self.match_kind(TokenKind::Bang) {
            let op = if minus {
                UnOp::Negate
            } else {
                UnOp::Not
            };
            let right = self.parse_unary()?;
            return Ok(
                Expr::UnaryOp {
                    op,
                    operand: Box::new(right),
                    span: Span { start: 0, end: 0, line: 0, column: 0 },
                },
            );
        }
        self.parse_primary()
    }

    /// Expressions separated by commas, up to the first one not followed by
    /// a comma.
    fn parse_list(&mut self) -> (r: Result<Vec<Expr>, String>)
        requires
            old(self).inv(),
        ensures
            old(self).step(*final(self)),
            r is Ok && !old(self).at_end() ==> final(self).current > old(self).current,
            match list_at(old(self).tokens@, old(self).current as int, seq![]) {
                Ok((vs, np)) => r is Ok && exprs_view(r->Ok_0@) == vs && final(self).current == np,
                Err(m) => r is Err && r->Err_0@ == m,
            },
        decreases old(self).tokens@.len() - old(self).current, 9nat,
    {
        let ghost ts = self.tokens@;
        let ghost c0 = self.current as int;
        let mut items: Vec<Expr> = Vec::new();
        loop
            invariant_except_break
                list_at(ts, c0, seq![]) == list_at(ts, self.current as int, exprs_view(items@)),
            invariant
                old(self).step(*self),
                ts == self.tokens@,
                c0 == old(self).current,
                self.current >= old(self).current,
            ensures
                old(self).step(*self),
                self.current > old(self).current || old(self).at_end(),
                list_at(ts, c0, seq![]) == Ok::<_, Seq<char>>((exprs_view(items@), self.current as int)),
            decreases self.tokens@.len() - self.current,
        {
            let e = self.parse_expr()?;
            proof {
                lemma_exprs_view_push(items@, e);
            }
            items.push(e);
            if !self.match_kind(TokenKind::Comma) {
                break;
            }
        }
        Ok(items)
    }

    /// A literal, identifier, array literal or parenthesized expression,
    /// followed by any calls `(..)`, member accesses `.name` and indexings
    /// `[..]`.
    fn parse_primary(&mut self) -> (r: Result<Expr, String>)
        requires
            old(self).inv(),
        ensures
            old(self).step(*final(self)),
            r is Ok && !old(self).at_end() ==> final(self).current > old(self).current,
            expr_result(r, primary_at(old(self).tokens@, old(self).current as int), final(self).current as int),
        decreases old(self).tokens@.len() - old(self).current, 2nat,
    {
        let ghost ts = self.tokens@;
        let ghost c0 = self.current as int;
        if self.match_kind(TokenKind::LeftBracket) {
            let items = if !self.check(TokenKind::RightBracket) {
                self.parse_list()?
            } else {
                Vec::new()
            };
            proof {
                if tok(ts, c0 + 1) is RightBracket {
                    assert(exprs_view(items@) =~= seq![]);
                }
            }
            self.consume(TokenKind::RightBracket, "Expected ']' after array items")?;
            return Ok(Expr::ArrayLiteral(items, Span { start: 0, end: 0, line: 0, column: 0 }));
        }
        let at_end = self.is_at_end();
        self.advance();
        let token = self.previous().duplicate();
        let is_type_kw = token.kind.is_type_keyword();
        let mut expr = match token.kind {
            TokenKind::IntLiteral(n) => Expr::IntLiteral(n, token.span),
            TokenKind::FloatLiteral(n) => Expr::FloatLiteral(n, token.span),
            TokenKind::StringLiteral(s) => Expr::StringLiteral(s, token.span),
            TokenKind::BoolLiteral(b) => Expr::BoolLiteral(b, token.span),
            TokenKind::Identifier(name) => Expr::Identifier(name, token.span),
            TokenKind::LeftParen => {
                if at_end {
                    // `(` read again at `Eof` would open the same group without end
                    let eof = self.tokens[self.current].duplicate();
                    return Err(expected_expression_message(&eof));
                }
                let e = self.parse_expr()?;
                self.consume(TokenKind::RightParen, "Expected ')'")?;
                e
            },
            kind => {
                if is_type_kw {
                    Expr::Identifier(token.lexeme, token.span)
                } else {
                    let t = Token { kind, lexeme: token.lexeme, span: token.span };
                    return Err(expected_expression_message(&t));
                }
            },
        };
        let ghost a0 = self.current as int;
        let ghost v0 = expr_view(expr);
        assert(primary_at(ts, c0) == postfix_at(ts, a0, v0));

        // Handle trailing calls or member access
        loop
            invariant_except_break
                postfix_at(ts, a0, v0) == postfix_at(ts, self.current as int, expr_view(expr)),
            invariant
                old(self).step(*self),
                ts == self.tokens@,
                c0 == old(self).current,
                primary_at(ts, c0) == postfix_at(ts, a0, v0),
                self.current > old(self).current || old(self).at_end(),
            ensures
                old(self).step(*self),
                self.current > old(self).current || old(self).at_end(),
                postfix_at(ts, a0, v0) == Ok::<_, Seq<char>>((expr_view(expr), self.current as int)),
            decreases self.tokens@.len() - self.current,
        {
            let ghost it0 = self.current as int;
            if self.match_kind(TokenKind::LeftParen) {
                proof {
                    assert(tok(ts, it0) is LeftParen);
                }
                let args = if !self.check(TokenKind::RightParen) {
                    match self.parse_list() {
                        Ok(a) => a,
                        Err(e) => {
                            assert(postfix_at(ts, it0, expr_view(expr)) matches Err(m) && m == e@);
                            return Err(e);
                        },
                    }
                } else {
                    Vec::new()
                };
                proof {
                    if tok(ts, it0 + 1) is RightParen {
                        assert(exprs_view(args@) =~= seq![]);
                    }
                }
                self.consume(TokenKind::RightParen, "Expected ')' after call args")?;
                expr = Expr::Call {
                    callee: Box::new(expr),
                    args,
                    span: Span { start: 0, end: 0, line: 0, column: 0 },
                };
            } else if self.match_kind(TokenKind::Dot) {
                proof {
                    assert(tok(ts, it0) is Dot);
                }
                let t = match self.consume_ident("Expected property name") {
                    Ok(t) => t,
                    Err(e) => {
                        assert(postfix_at(ts, it0, expr_view(expr)) matches Err(m) && m == e@);
                        return Err(e);
                    },
                };
                expr = Expr::MemberAccess {
                    object: Box::new(expr),
                    member: t.lexeme,
                    span: Span { start: 0, end: 0, line: 0, column: 0 },
                };
            } else if self.match_kind(TokenKind::LeftBracket) {
                proof {
                    assert(tok(ts, it0) is LeftBracket);
                }
                let index = match self.parse_expr() {
                    Ok(i) => i,
                    Err(e) => {
                        assert(postfix_at(ts, it0, expr_view(expr)) matches Err(m) && m == e@);
                        return Err(e);
                    },
                };
                self.consume(TokenKind::RightBracket, "Expected ']' after index")?;
                expr = Expr::IndexAccess {
                    object: Box::new(expr),
                    index: Box::new(index),
                    span: Span { start: 0, end: 0, line: 0, column: 0 },
                };
            } else {
                break;
            }
        }

        Ok(expr)
    }

    // ── Utilities ──

    /// Consumes the next token when it is of `kind`'s variant.
    fn match_kind(&mut self, kind: TokenKind) -> (b: bool)
        requires
            old(self).inv(),
        ensures
            old(self).step(*final(self)),
            b == (!old(self).at_end() && old(self).tokens@[old(self).current as int].kind.tag()
                == kind.tag()),
            final(self).current == old(self).current + if b { 1int } else { 0int },
    {
        if self.check(kind) {
            self.advance();
            true
        } else {
            false
        }
    }

    /// Consumes the next token when it is of `kind`'s variant, else fails
    /// with `err` located at that token.
    fn consume(&mut self, kind: TokenKind, err: &str) -> (r: Result<Token, String>)
        requires
            old(self).inv(),
        ensures
            old(self).step(*final(self)),
            r is Ok == (!old(self).at_end() && old(self).tokens@[old(self).current as int].kind.tag()
                == kind.tag()),
            r is Ok ==> final(self).current == old(self).current + 1 && r->Ok_0
                == old(self).tokens@[old(self).current as int],
            r is Err ==> final(self).current == old(self).current,
            r is Err ==> r->Err_0@ == located(err@, old(self).tokens@[old(self).current as int]),
    {
        if self.check(kind) {
            self.advance();
            Ok(self.previous().duplicate())
        } else {
            Err(located_error(err, &self.tokens[self.current]))
        }
    }

    /// Consumes an identifier, or a type keyword standing for a name.
    fn consume_ident(&mut self, err: &str) -> (r: Result<Token, String>)
        requires
            old(self).inv(),
        ensures
            old(self).step(*final(self)),
            r is Ok == old(self).tokens@[old(self).current as int].kind.spec_is_type_keyword(),
            r is Ok ==> final(self).current == old(self).current + 1 && r->Ok_0
                == old(self).tokens@[old(self).current as int],
            r is Err ==> final(self).current == old(self).current && r->Err_0@ == err@,
    {
        if self.tokens[self.current].kind.is_type_keyword() {
            self.advance();
            Ok(self.previous().duplicate())
        } else {
            Err(owned(err))
        }
    }

    /// Whether the next token is of `kind`'s variant (payloads are not
    /// compared); never at the end.
    fn check(&self, kind: TokenKind) -> (b: bool)
        requires
            self.inv(),
        ensures
            b == (!self.at_end() && self.tokens@[self.current as int].kind.tag() == kind.tag()),
    {
        if self.is_at_end() {
            return false;
        }
        self.tokens[self.current].kind.same_variant(&kind)
    }

    /// Moves past the next token, unless it is `Eof`.
    fn advance(&mut self)
        requires
            old(self).inv(),
        ensures
            old(self).step(*final(self)),
            final(self).current == if old(self).at_end() {
                old(self).current as int
            } else {
                old(self).current + 1
            },
            final(self).current >= 1,
    {
        let n = self.tokens.len();
        if !self.is_at_end() {
            self.current = self.current + 1;
        }
        assert(self.current <= n);
    }

    fn is_at_end(&self) -> (b: bool)
        requires
            self.current < self.tokens@.len(),
        ensures
            b == self.at_end(),
    {
        matches!(self.tokens[self.current].kind, TokenKind::Eof)
    }

    fn at_end_exec(&self) -> (b: bool)
        requires
            self.current < self.tokens@.len(),
        ensures
            b == self.at_end(),
    {
        self.is_at_end()
    }

    fn peek_kind(&self) -> (k: TokenKind)
        requires
            self.current < self.tokens@.len(),
        ensures
            k == self.tokens@[self.current as int].kind,
    {
        self.tokens[self.current].kind.duplicate()
    }

    fn peek_next(&self) -> (t: &Token)
        requires
            self.current < self.tokens@.len(),
        ensures
            *t == if self.current + 1 >= self.tokens@.len() {
                self.tokens@[self.current as int]
            } else {
                self.tokens@[self.current + 1]
            },
    {
        if self.tokens.len() - self.current <= 1 {
            &self.tokens[self.current]
        } else {
            &self.tokens[self.current + 1]
        }
    }

    fn previous(&self) -> (t: &Token)
        requires
            1 <= self.current <= self.tokens@.len(),
        ensures
            *t == self.tokens@[self.current - 1],
    {
        &self.tokens[self.current - 1]
    }
}

} // verus!
