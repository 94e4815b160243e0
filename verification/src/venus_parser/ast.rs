//! The syntax tree of the stand-alone parser crate: the Big List, where
//! control flow, returns and imports have nodes of their own.

use vstd::prelude::*;
use crate::lexer::token::Span;

verus! {

/// The root of a VenusScript file: just a list of nodes.
#[derive(Debug)]
pub struct Program {
    pub nodes: Vec<Node>,
}

/// Every item in the Big List is a Node.
#[derive(Debug)]
pub enum Node {
    /// THE universal entity: a function, a struct, an object, an int.
    Variable(Variable),
    /// Control flow constructs (live inside a Variable's content).
    ForLoop(ForLoop),
    WhileLoop(WhileLoop),
    IfChain(IfChain),
    /// Statements (inside func content).
    Return(ReturnStmt),
    Assignment(Assignment),
    /// Module import directive (e.g. `import std`).
    Import(ImportStmt),
    /// Bare expression as a statement (e.g. a function call).
    ExprStmt(Expr),
}

/// A declaration: type, name, optional arguments, optional value, content.
#[derive(Debug)]
pub struct Variable {
    pub type_expr: TypeExpr,
    pub name: String,
    pub arguments: Option<ArgList>,
    pub value: Option<Expr>,
    pub content: Vec<Node>,
    pub return_type: Option<TypeExpr>,
    pub decorators: Vec<Decorator>,
    pub uses: Vec<String>,
    pub is_const: bool,
    pub is_export: bool,
    pub is_ref: bool,
    pub span: Span,
}

#[derive(Debug)]
pub enum TypeExpr {
    Named(String),
    Array(Box<TypeExpr>),
}

#[derive(Debug)]
pub struct ArgList {
    pub args: Vec<Arg>,
    pub span: Span,
}

#[derive(Debug)]
pub enum Arg {
    Typed { ty: TypeExpr, name: String, is_ref: bool, span: Span },
    Named { name: String, value: Expr, span: Span },
    Positional(Expr),
}

#[derive(Debug)]
pub struct Decorator {
    pub path: Vec<String>,
    pub span: Span,
}

#[derive(Debug)]
pub struct ForLoop {
    pub var_name: String,
    pub iterable: Expr,
    pub body: Vec<Node>,
    pub span: Span,
}

#[derive(Debug)]
pub struct WhileLoop {
    pub condition: Expr,
    pub body: Vec<Node>,
    pub span: Span,
}

#[derive(Debug)]
pub struct IfChain {
    pub condition: Expr,
    pub then_body: Vec<Node>,
    pub elif_branches: Vec<(Expr, Vec<Node>)>,
    pub else_body: Option<Vec<Node>>,
    pub span: Span,
}

#[derive(Debug)]
pub struct ReturnStmt {
    pub value: Option<Expr>,
    pub span: Span,
}

#[derive(Debug, Clone, Copy, PartialEq, Eq, Structural)]
pub enum AssignOp {
    Assign,
    AddAssign,
    SubAssign,
    MulAssign,
    DivAssign,
}

#[derive(Debug)]
pub struct Assignment {
    pub target: Expr,
    pub op: AssignOp,
    pub value: Expr,
    pub span: Span,
}

/// Expressions. A float literal keeps its decimal text.
#[derive(Debug)]
pub enum Expr {
    IntLiteral(i64, Span),
    FloatLiteral(String, Span),
    StringLiteral(String, Span),
    BoolLiteral(bool, Span),
    ArrayLiteral(Vec<Expr>, Span),
    Identifier(String, Span),
    BinaryOp { left: Box<Expr>, op: BinOp, right: Box<Expr>, span: Span },
    UnaryOp { op: UnOp, operand: Box<Expr>, span: Span },
    Call { callee: Box<Expr>, args: Vec<Expr>, span: Span },
    MemberAccess { object: Box<Expr>, member: String, span: Span },
    IndexAccess { object: Box<Expr>, index: Box<Expr>, span: Span },
}

#[derive(Debug, Clone, Copy, PartialEq, Eq, Structural)]
pub enum BinOp {
    Add,
    Sub,
    Mul,
    Div,
    Mod,
    Eq,
    NotEq,
    Lt,
    Gt,
    LtEq,
    GtEq,
    And,
    Or,
}

/// `import m`, or `from m import a, b` / `from m import *` (items `["*"]`).
#[derive(Debug)]
pub struct ImportStmt {
    pub module_name: String,
    pub items: Vec<String>,
    pub is_from: bool,
    pub span: Span,
}

#[derive(Debug, Clone, Copy, PartialEq, Eq, Structural)]
pub enum UnOp {
    Negate,
    Not,
}

impl Expr {
    /// Where the expression stands in the source: literals and identifiers
    /// carry their token's span; a binary operation runs from its left
    /// operand's start to its right operand's end; a unary operation ends
    /// where its operand ends and takes its line and column from the operand
    /// where its own are unset; calls, member and index accesses take their
    /// callee's or object's span.
    pub open spec fn spec_span(self) -> Span
        decreases self,
    {
        match self {
            Expr::IntLiteral(_, s) => s,
            Expr::FloatLiteral(_, s) => s,
            Expr::StringLiteral(_, s) => s,
            Expr::BoolLiteral(_, s) => s,
            Expr::ArrayLiteral(_, s) => s,
            Expr::Identifier(_, s) => s,
            Expr::BinaryOp { left, right, .. } => {
                let l = left.spec_span();
                let r = right.spec_span();
                Span { start: l.start, end: r.end, line: l.line, column: l.column }
            },
            Expr::UnaryOp { operand, span, .. } => {
                let o = operand.spec_span();
                Span {
                    start: span.start,
                    end: o.end,
                    line: if span.line == 0 { o.line } else { span.line },
                    column: if span.column == 0 { o.column } else { span.column },
                }
            },
            Expr::Call { callee, .. } => callee.spec_span(),
            Expr::MemberAccess { object, .. } => object.spec_span(),
            Expr::IndexAccess { object, .. } => object.spec_span(),
        }
    }

    pub fn span(&self) -> (s: Span)
        ensures
            s == self.spec_span(),
        decreases self,
    {
        match self {
            Expr::IntLiteral(_, s) => *s,
            Expr::FloatLiteral(_, s) => *s,
            Expr::StringLiteral(_, s) => *s,
            Expr::BoolLiteral(_, s) => *s,
            Expr::ArrayLiteral(_, s) => *s,
            Expr::Identifier(_, s) => *s,
            Expr::BinaryOp { left, right, .. } => {
                let l = left.span();
                let r = right.span();
                Span { start: l.start, end: r.end, line: l.line, column: l.column }
            },
            Expr::UnaryOp { operand, span, .. } => {
                let op_s = operand.span();
                let line = if span.line == 0 { op_s.line } else { span.line };
                let col = if span.column == 0 { op_s.column } else { span.column };
                Span { start: span.start, end: op_s.end, line, column: col }
            },
            Expr::Call { callee, .. } => {
                let c_s = callee.span();
                Span { start: c_s.start, end: c_s.end, line: c_s.line, column: c_s.column }
            },
            Expr::MemberAccess { object, .. } => object.span(),
            Expr::IndexAccess { object, .. } => object.span(),
        }
    }
}

impl Node {
    /// A node's span: that of the statement it holds.
    pub open spec fn spec_span(self) -> Span {
        match self {
            Node::Variable(v) => v.span,
            Node::ForLoop(f) => f.span,
            Node::WhileLoop(w) => w.span,
            Node::IfChain(i) => i.span,
            Node::Return(r) => r.span,
            Node::Assignment(a) => a.span,
            Node::Import(i) => i.span,
            Node::ExprStmt(e) => e.spec_span(),
        }
    }

    pub fn span(&self) -> (s: Span)
        ensures
            s == self.spec_span(),
    {
        match self {
            Node::Variable(v) => v.span,
            Node::ForLoop(f) => f.span,
            Node::WhileLoop(w) => w.span,
            Node::IfChain(i) => i.span,
            Node::Return(r) => r.span,
            Node::Assignment(a) => a.span,
            Node::Import(i) => i.span,
            Node::ExprStmt(e) => e.span(),
        }
    }
}


// ── Views ──
// The tree as plain values: sequences for vectors and character sequences
// for strings. The parser's contract speaks of these.

pub enum TypeView {
    Named(Seq<char>),
    Array(Box<TypeView>),
}

pub enum ExprView {
    IntLiteral(i64, Span),
    FloatLiteral(Seq<char>, Span),
    StringLiteral(Seq<char>, Span),
    BoolLiteral(bool, Span),
    ArrayLiteral(Seq<ExprView>, Span),
    Identifier(Seq<char>, Span),
    BinaryOp { left: Box<ExprView>, op: BinOp, right: Box<ExprView>, span: Span },
    UnaryOp { op: UnOp, operand: Box<ExprView>, span: Span },
    Call { callee: Box<ExprView>, args: Seq<ExprView>, span: Span },
    MemberAccess { object: Box<ExprView>, member: Seq<char>, span: Span },
    IndexAccess { object: Box<ExprView>, index: Box<ExprView>, span: Span },
}

pub enum ArgView {
    Typed { ty: TypeView, name: Seq<char>, is_ref: bool, span: Span },
    Named { name: Seq<char>, value: ExprView, span: Span },
    Positional(ExprView),
}

pub struct ArgListView {
    pub args: Seq<ArgView>,
    pub span: Span,
}

pub struct DecoratorView {
    pub path: Seq<Seq<char>>,
    pub span: Span,
}

pub struct VariableView {
    pub type_expr: TypeView,
    pub name: Seq<char>,
    pub arguments: Option<ArgListView>,
    pub value: Option<ExprView>,
    pub content: Seq<NodeView>,
    pub return_type: Option<TypeView>,
    pub decorators: Seq<DecoratorView>,
    pub uses: Seq<Seq<char>>,
    pub is_const: bool,
    pub is_export: bool,
    pub is_ref: bool,
    pub span: Span,
}

pub struct AssignmentView {
    pub target: ExprView,
    pub op: AssignOp,
    pub value: ExprView,
    pub span: Span,
}

pub struct ImportView {
    pub module_name: Seq<char>,
    pub items: Seq<Seq<char>>,
    pub is_from: bool,
    pub span: Span,
}

pub enum NodeView {
    Variable(VariableView),
    ForLoop { var_name: Seq<char>, iterable: ExprView, body: Seq<NodeView>, span: Span },
    WhileLoop { condition: ExprView, body: Seq<NodeView>, span: Span },
    IfChain {
        condition: ExprView,
        then_body: Seq<NodeView>,
        elif_branches: Seq<(ExprView, Seq<NodeView>)>,
        else_body: Option<Seq<NodeView>>,
        span: Span,
    },
    Return { value: Option<ExprView>, span: Span },
    Assignment(AssignmentView),
    Import(ImportView),
    ExprStmt(ExprView),
}

pub open spec fn type_view(t: TypeExpr) -> TypeView
    decreases t,
{
    match t {
        TypeExpr::Named(n) => TypeView::Named(n@),
        TypeExpr::Array(inner) => TypeView::Array(Box::new(type_view(*inner))),
    }
}

pub open spec fn opt_type_view(t: Option<TypeExpr>) -> Option<TypeView> {
    match t {
        Some(t) => Some(type_view(t)),
        None => None,
    }
}

pub open spec fn strings_view(v: Seq<String>) -> Seq<Seq<char>>
    decreases v.len(),
{
    if v.len() == 0 {
        seq![]
    } else {
        strings_view(v.drop_last()).push(v.last()@)
    }
}

pub open spec fn expr_view(e: Expr) -> ExprView
    decreases e,
{
    match e {
        Expr::IntLiteral(n, s) => ExprView::IntLiteral(n, s),
        Expr::FloatLiteral(t, s) => ExprView::FloatLiteral(t@, s),
        Expr::StringLiteral(t, s) => ExprView::StringLiteral(t@, s),
        Expr::BoolLiteral(b, s) => ExprView::BoolLiteral(b, s),
        Expr::ArrayLiteral(items, s) => ExprView::ArrayLiteral(exprs_view(items@), s),
        Expr::Identifier(n, s) => ExprView::Identifier(n@, s),
        Expr::BinaryOp { left, op, right, span } => ExprView::BinaryOp {
            left: Box::new(expr_view(*left)),
            op,
            right: Box::new(expr_view(*right)),
            span,
        },
        Expr::UnaryOp { op, operand, span } => ExprView::UnaryOp { op, operand: Box::new(expr_view(*operand)), span },
        Expr::Call { callee, args, span } => ExprView::Call {
            callee: Box::new(expr_view(*callee)),
            args: exprs_view(args@),
            span,
        },
        Expr::MemberAccess { object, member, span } => ExprView::MemberAccess {
            object: Box::new(expr_view(*object)),
            member: member@,
            span,
        },
        Expr::IndexAccess { object, index, span } => ExprView::IndexAccess {
            object: Box::new(expr_view(*object)),
            index: Box::new(expr_view(*index)),
            span,
        },
    }
}

pub open spec fn exprs_view(es: Seq<Expr>) -> Seq<ExprView>
    decreases es,
{
    if es.len() == 0 {
        seq![]
    } else {
        exprs_view(es.drop_last()).push(expr_view(es.last()))
    }
}

pub open spec fn opt_expr_view(e: Option<Expr>) -> Option<ExprView> {
    match e {
        Some(e) => Some(expr_view(e)),
        None => None,
    }
}

pub open spec fn arg_view(a: Arg) -> ArgView {
    match a {
        Arg::Typed { ty, name, is_ref, span } => ArgView::Typed { ty: type_view(ty), name: name@, is_ref, span },
        Arg::Named { name, value, span } => ArgView::Named { name: name@, value: expr_view(value), span },
        Arg::Positional(e) => ArgView::Positional(expr_view(e)),
    }
}

pub open spec fn args_view(v: Seq<Arg>) -> Seq<ArgView>
    decreases v.len(),
{
    if v.len() == 0 {
        seq![]
    } else {
        args_view(v.drop_last()).push(arg_view(v.last()))
    }
}

pub open spec fn arg_list_view(a: Option<ArgList>) -> Option<ArgListView> {
    match a {
        Some(l) => Some(ArgListView { args: args_view(l.args@), span: l.span }),
        None => None,
    }
}

pub open spec fn decorator_view(d: Decorator) -> DecoratorView {
    DecoratorView { path: strings_view(d.path@), span: d.span }
}

pub open spec fn decorators_view(v: Seq<Decorator>) -> Seq<DecoratorView>
    decreases v.len(),
{
    if v.len() == 0 {
        seq![]
    } else {
        decorators_view(v.drop_last()).push(decorator_view(v.last()))
    }
}

pub open spec fn variable_view(v: Variable) -> VariableView
    decreases v,
{
    VariableView {
        type_expr: type_view(v.type_expr),
        name: v.name@,
        arguments: arg_list_view(v.arguments),
        value: opt_expr_view(v.value),
        content: nodes_view(v.content@),
        return_type: opt_type_view(v.return_type),
        decorators: decorators_view(v.decorators@),
        uses: strings_view(v.uses@),
        is_const: v.is_const,
        is_export: v.is_export,
        is_ref: v.is_ref,
        span: v.span,
    }
}

pub open spec fn import_view(i: ImportStmt) -> ImportView {
    ImportView { module_name: i.module_name@, items: strings_view(i.items@), is_from: i.is_from, span: i.span }
}

pub open spec fn node_view(n: Node) -> NodeView
    decreases n,
{
    match n {
        Node::Variable(v) => NodeView::Variable(variable_view(v)),
        Node::ForLoop(f) => NodeView::ForLoop {
            var_name: f.var_name@,
            iterable: expr_view(f.iterable),
            body: nodes_view(f.body@),
            span: f.span,
        },
        Node::WhileLoop(w) => NodeView::WhileLoop { condition: expr_view(w.condition), body: nodes_view(w.body@), span: w.span },
        Node::IfChain(i) => NodeView::IfChain {
            condition: expr_view(i.condition),
            then_body: nodes_view(i.then_body@),
            elif_branches: branches_view(i.elif_branches@),
            else_body: match i.else_body {
                Some(b) => Some(nodes_view(b@)),
                None => None,
            },
            span: i.span,
        },
        Node::Return(r) => NodeView::Return { value: opt_expr_view(r.value), span: r.span },
        Node::Assignment(a) => NodeView::Assignment(AssignmentView {
            target: expr_view(a.target),
            op: a.op,
            value: expr_view(a.value),
            span: a.span,
        }),
        Node::Import(i) => NodeView::Import(import_view(i)),
        Node::ExprStmt(e) => NodeView::ExprStmt(expr_view(e)),
    }
}

pub open spec fn branches_view(bs: Seq<(Expr, Vec<Node>)>) -> Seq<(ExprView, Seq<NodeView>)>
    decreases bs,
{
    if bs.len() == 0 {
        seq![]
    } else {
        branches_view(bs.drop_last()).push((expr_view(bs.last().0), nodes_view(bs.last().1@)))
    }
}

pub open spec fn nodes_view(ns: Seq<Node>) -> Seq<NodeView>
    decreases ns,
{
    if ns.len() == 0 {
        seq![]
    } else {
        nodes_view(ns.drop_last()).push(node_view(ns.last()))
    }
}

/// Where an expression view stands in the source (as `Expr::spec_span`).
pub open spec fn view_span(e: ExprView) -> Span
    decreases e,
{
    match e {
        ExprView::IntLiteral(_, s) => s,
        ExprView::FloatLiteral(_, s) => s,
        ExprView::StringLiteral(_, s) => s,
        ExprView::BoolLiteral(_, s) => s,
        ExprView::ArrayLiteral(_, s) => s,
        ExprView::Identifier(_, s) => s,
        ExprView::BinaryOp { left, right, .. } => {
            let l = view_span(*left);
            let r = view_span(*right);
            Span { start: l.start, end: r.end, line: l.line, column: l.column }
        },
        ExprView::UnaryOp { operand, span, .. } => {
            let o = view_span(*operand);
            Span {
                start: span.start,
                end: o.end,
                line: if span.line == 0 { o.line } else { span.line },
                column: if span.column == 0 { o.column } else { span.column },
            }
        },
        ExprView::Call { callee, .. } => view_span(*callee),
        ExprView::MemberAccess { object, .. } => view_span(*object),
        ExprView::IndexAccess { object, .. } => view_span(*object),
    }
}

pub proof fn lemma_view_span(e: Expr)
    ensures
        view_span(expr_view(e)) == e.spec_span(),
    decreases e,
{
    match e {
        Expr::BinaryOp { left, right, .. } => {
            lemma_view_span(*left);
            lemma_view_span(*right);
        },
        Expr::UnaryOp { operand, .. } => lemma_view_span(*operand),
        Expr::Call { callee, .. } => lemma_view_span(*callee),
        Expr::MemberAccess { object, .. } => lemma_view_span(*object),
        Expr::IndexAccess { object, .. } => lemma_view_span(*object),
        _ => {},
    }
}

/// A list view grows by the view of what is pushed.
pub proof fn lemma_exprs_view_push(es: Seq<Expr>, e: Expr)
    ensures
        exprs_view(es.push(e)) == exprs_view(es).push(expr_view(e)),
{
    assert(es.push(e).drop_last() =~= es);
}

pub proof fn lemma_nodes_view_push(ns: Seq<Node>, n: Node)
    ensures
        nodes_view(ns.push(n)) == nodes_view(ns).push(node_view(n)),
{
    assert(ns.push(n).drop_last() =~= ns);
}

pub proof fn lemma_args_view_push(v: Seq<Arg>, a: Arg)
    ensures
        args_view(v.push(a)) == args_view(v).push(arg_view(a)),
{
    assert(v.push(a).drop_last() =~= v);
}

pub proof fn lemma_strings_view_push(v: Seq<String>, s: String)
    ensures
        strings_view(v.push(s)) == strings_view(v).push(s@),
{
    assert(v.push(s).drop_last() =~= v);
}

pub proof fn lemma_decorators_view_push(v: Seq<Decorator>, d: Decorator)
    ensures
        decorators_view(v.push(d)) == decorators_view(v).push(decorator_view(d)),
{
    assert(v.push(d).drop_last() =~= v);
}

pub proof fn lemma_branches_view_push(bs: Seq<(Expr, Vec<Node>)>, b: (Expr, Vec<Node>))
    ensures
        branches_view(bs.push(b)) == branches_view(bs).push((expr_view(b.0), nodes_view(b.1@))),
{
    assert(bs.push(b).drop_last() =~= bs);
}

// ── Copies ──
// The tree is recursive, so its copies are written out here; `Clone` on each
// type hands over to them.

fn copy_strings(v: &Vec<String>) -> (r: Vec<String>)
    ensures
        r@ == v@,
{
    let mut r: Vec<String> = Vec::new();
    let mut i: usize = 0;
    while i < v.len()
        invariant
            i <= v@.len(),
            r@ == v@.take(i as int),
        decreases v@.len() - i,
    {
        r.push(v[i].clone());
        assert(r@ == v@.take(i + 1));
        i = i + 1;
    }
    assert(v@.take(v@.len() as int) == v@);
    r
}

fn copy_type(t: &TypeExpr) -> (r: TypeExpr)
    ensures
        type_view(r) == type_view(*t),
    decreases t,
{
    match t {
        TypeExpr::Named(n) => TypeExpr::Named(n.clone()),
        TypeExpr::Array(inner) => TypeExpr::Array(Box::new(copy_type(inner))),
    }
}

fn copy_expr(e: &Expr) -> (r: Expr)
    ensures
        expr_view(r) == expr_view(*e),
    decreases e,
{
    match e {
        Expr::IntLiteral(n, s) => Expr::IntLiteral(*n, *s),
        Expr::FloatLiteral(t, s) => Expr::FloatLiteral(t.clone(), *s),
        Expr::StringLiteral(t, s) => Expr::StringLiteral(t.clone(), *s),
        Expr::BoolLiteral(b, s) => Expr::BoolLiteral(*b, *s),
        Expr::ArrayLiteral(items, s) => Expr::ArrayLiteral(copy_exprs(items), *s),
        Expr::Identifier(n, s) => Expr::Identifier(n.clone(), *s),
        Expr::BinaryOp { left, op, right, span } => Expr::BinaryOp {
            left: Box::new(copy_expr(left)),
            op: *op,
            right: Box::new(copy_expr(right)),
            span: *span,
        },
        Expr::UnaryOp { op, operand, span } => Expr::UnaryOp {
            op: *op,
            operand: Box::new(copy_expr(operand)),
            span: *span,
        },
        Expr::Call { callee, args, span } => Expr::Call {
            callee: Box::new(copy_expr(callee)),
            args: copy_exprs(args),
            span: *span,
        },
        Expr::MemberAccess { object, member, span } => Expr::MemberAccess {
            object: Box::new(copy_expr(object)),
            member: member.clone(),
            span: *span,
        },
        Expr::IndexAccess { object, index, span } => Expr::IndexAccess {
            object: Box::new(copy_expr(object)),
            index: Box::new(copy_expr(index)),
            span: *span,
        },
    }
}

fn copy_exprs(v: &Vec<Expr>) -> (r: Vec<Expr>)
    ensures
        exprs_view(r@) == exprs_view(v@),
    decreases v,
{
    let mut r: Vec<Expr> = Vec::new();
    let mut i: usize = 0;
    assert(v@.take(0) =~= seq![]);
    while i < v.len()
        invariant
            i <= v@.len(),
            exprs_view(r@) == exprs_view(v@.take(i as int)),
        decreases v@.len() - i,
    {
        proof {
            assert(decreases_to!(v => v@[i as int]));
        }
        let e = copy_expr(&v[i]);
        proof {
            lemma_exprs_view_push(r@, e);
            assert(v@.take(i + 1).drop_last() =~= v@.take(i as int));
        }
        r.push(e);
        i = i + 1;
    }
    assert(v@.take(v@.len() as int) =~= v@);
    r
}


fn copy_opt_type(t: &Option<TypeExpr>) -> (r: Option<TypeExpr>)
    ensures
        opt_type_view(r) == opt_type_view(*t),
{
    match t {
        Some(t) => Some(copy_type(t)),
        None => None,
    }
}

fn copy_arg(a: &Arg) -> (r: Arg)
    ensures
        arg_view(r) == arg_view(*a),
{
    match a {
        Arg::Typed { ty, name, is_ref, span } => Arg::Typed {
            ty: copy_type(ty),
            name: name.clone(),
            is_ref: *is_ref,
            span: *span,
        },
        Arg::Named { name, value, span } => Arg::Named {
            name: name.clone(),
            value: copy_expr(value),
            span: *span,
        },
        Arg::Positional(e) => Arg::Positional(copy_expr(e)),
    }
}

fn copy_arg_list(a: &ArgList) -> (r: ArgList)
    ensures
        arg_list_view(Some(r)) == arg_list_view(Some(*a)),
{
    let mut args: Vec<Arg> = Vec::new();
    let mut i: usize = 0;
    assert(a.args@.take(0) =~= seq![]);
    while i < a.args.len()
        invariant
            i <= a.args@.len(),
            args_view(args@) == args_view(a.args@.take(i as int)),
        decreases a.args@.len() - i,
    {
        let x = copy_arg(&a.args[i]);
        proof {
            lemma_args_view_push(args@, x);
            assert(a.args@.take(i + 1).drop_last() =~= a.args@.take(i as int));
        }
        args.push(x);
        i = i + 1;
    }
    assert(a.args@.take(a.args@.len() as int) =~= a.args@);
    ArgList { args, span: a.span }
}

fn copy_decorators(v: &Vec<Decorator>) -> (r: Vec<Decorator>)
    ensures
        decorators_view(r@) == decorators_view(v@),
{
    let mut r: Vec<Decorator> = Vec::new();
    let mut i: usize = 0;
    assert(v@.take(0) =~= seq![]);
    while i < v.len()
        invariant
            i <= v@.len(),
            decorators_view(r@) == decorators_view(v@.take(i as int)),
        decreases v@.len() - i,
    {
        let d = Decorator { path: copy_strings(&v[i].path), span: v[i].span };
        proof {
            lemma_decorators_view_push(r@, d);
            assert(v@.take(i + 1).drop_last() =~= v@.take(i as int));
        }
        r.push(d);
        i = i + 1;
    }
    assert(v@.take(v@.len() as int) =~= v@);
    r
}

fn copy_variable(v: &Variable) -> (r: Variable)
    ensures
        variable_view(r) == variable_view(*v),
    decreases v,
{
    Variable {
        type_expr: copy_type(&v.type_expr),
        name: v.name.clone(),
        arguments: match &v.arguments {
            Some(a) => Some(copy_arg_list(a)),
            None => None,
        },
        value: match &v.value {
            Some(e) => Some(copy_expr(e)),
            None => None,
        },
        content: copy_nodes(&v.content),
        return_type: copy_opt_type(&v.return_type),
        decorators: copy_decorators(&v.decorators),
        uses: copy_strings(&v.uses),
        is_const: v.is_const,
        is_export: v.is_export,
        is_ref: v.is_ref,
        span: v.span,
    }
}

fn copy_node(n: &Node) -> (r: Node)
    ensures
        node_view(r) == node_view(*n),
    decreases n,
{
    match n {
        Node::Variable(v) => Node::Variable(copy_variable(v)),
        Node::Assignment(a) => Node::Assignment(Assignment {
            target: copy_expr(&a.target),
            op: a.op,
            value: copy_expr(&a.value),
            span: a.span,
        }),
        Node::ExprStmt(e) => Node::ExprStmt(copy_expr(e)),
        Node::ForLoop(f) => Node::ForLoop(ForLoop {
            var_name: f.var_name.clone(),
            iterable: copy_expr(&f.iterable),
            body: copy_nodes(&f.body),
            span: f.span,
        }),
        Node::WhileLoop(w) => Node::WhileLoop(WhileLoop {
            condition: copy_expr(&w.condition),
            body: copy_nodes(&w.body),
            span: w.span,
        }),
        Node::IfChain(i) => Node::IfChain(copy_if_chain(i)),
        Node::Return(r) => Node::Return(ReturnStmt {
            value: match &r.value {
                Some(e) => Some(copy_expr(e)),
                None => None,
            },
            span: r.span,
        }),
        Node::Import(i) => Node::Import(ImportStmt {
            module_name: i.module_name.clone(),
            items: copy_strings(&i.items),
            is_from: i.is_from,
            span: i.span,
        }),
    }
}

fn copy_if_chain(i: &IfChain) -> (r: IfChain)
    ensures
        node_view(Node::IfChain(r)) == node_view(Node::IfChain(*i)),
    decreases i,
{
    let mut elifs: Vec<(Expr, Vec<Node>)> = Vec::new();
    let mut k: usize = 0;
    assert(i.elif_branches@.take(0) =~= seq![]);
    while k < i.elif_branches.len()
        invariant
            k <= i.elif_branches@.len(),
            branches_view(elifs@) == branches_view(i.elif_branches@.take(k as int)),
        decreases i.elif_branches@.len() - k,
    {
        proof {
            assert(decreases_to!(i => i.elif_branches@[k as int].1));
        }
        let (c, b) = &i.elif_branches[k];
        let pair = (copy_expr(c), copy_nodes(b));
        proof {
            lemma_branches_view_push(elifs@, pair);
            assert(i.elif_branches@.take(k + 1).drop_last() =~= i.elif_branches@.take(k as int));
        }
        elifs.push(pair);
        k = k + 1;
    }
    assert(i.elif_branches@.take(i.elif_branches@.len() as int) =~= i.elif_branches@);
    IfChain {
        condition: copy_expr(&i.condition),
        then_body: copy_nodes(&i.then_body),
        elif_branches: elifs,
        else_body: match &i.else_body {
            Some(b) => Some(copy_nodes(b)),
            None => None,
        },
        span: i.span,
    }
}

fn copy_nodes(v: &Vec<Node>) -> (r: Vec<Node>)
    ensures
        nodes_view(r@) == nodes_view(v@),
    decreases v,
{
    let mut r: Vec<Node> = Vec::new();
    let mut i: usize = 0;
    assert(v@.take(0) =~= seq![]);
    while i < v.len()
        invariant
            i <= v@.len(),
            nodes_view(r@) == nodes_view(v@.take(i as int)),
        decreases v@.len() - i,
    {
        proof {
            assert(decreases_to!(v => v@[i as int]));
        }
        let n = copy_node(&v[i]);
        proof {
            lemma_nodes_view_push(r@, n);
            assert(v@.take(i + 1).drop_last() =~= v@.take(i as int));
        }
        r.push(n);
        i = i + 1;
    }
    assert(v@.take(v@.len() as int) =~= v@);
    r
}

impl Clone for Program {
    fn clone(&self) -> (r: Self)
        ensures
            nodes_view(r.nodes@) == nodes_view(self.nodes@),
    {
        Program { nodes: copy_nodes(&self.nodes) }
    }
}

impl Clone for Node {
    fn clone(&self) -> (r: Self)
        ensures
            node_view(r) == node_view(*self),
    {
        copy_node(self)
    }
}

impl Clone for Variable {
    fn clone(&self) -> (r: Self)
        ensures
            variable_view(r) == variable_view(*self),
    {
        copy_variable(self)
    }
}

impl Clone for TypeExpr {
    fn clone(&self) -> (r: Self)
        ensures
            type_view(r) == type_view(*self),
    {
        copy_type(self)
    }
}

impl Clone for ArgList {
    fn clone(&self) -> (r: Self)
        ensures
            arg_list_view(Some(r)) == arg_list_view(Some(*self)),
    {
        copy_arg_list(self)
    }
}

impl Clone for Arg {
    fn clone(&self) -> (r: Self)
        ensures
            arg_view(r) == arg_view(*self),
    {
        copy_arg(self)
    }
}

impl Clone for Decorator {
    fn clone(&self) -> (r: Self)
        ensures
            decorator_view(r) == decorator_view(*self),
    {
        Decorator { path: copy_strings(&self.path), span: self.span }
    }
}

impl Clone for Assignment {
    fn clone(&self) -> (r: Self)
        ensures
            node_view(Node::Assignment(r)) == node_view(Node::Assignment(*self)),
    {
        Assignment {
            target: copy_expr(&self.target),
            op: self.op,
            value: copy_expr(&self.value),
            span: self.span,
        }
    }
}

impl Clone for ForLoop {
    fn clone(&self) -> (r: Self)
        ensures
            node_view(Node::ForLoop(r)) == node_view(Node::ForLoop(*self)),
    {
        ForLoop {
            var_name: self.var_name.clone(),
            iterable: copy_expr(&self.iterable),
            body: copy_nodes(&self.body),
            span: self.span,
        }
    }
}

impl Clone for WhileLoop {
    fn clone(&self) -> (r: Self)
        ensures
            node_view(Node::WhileLoop(r)) == node_view(Node::WhileLoop(*self)),
    {
        WhileLoop { condition: copy_expr(&self.condition), body: copy_nodes(&self.body), span: self.span }
    }
}

impl Clone for IfChain {
    fn clone(&self) -> (r: Self)
        ensures
            node_view(Node::IfChain(r)) == node_view(Node::IfChain(*self)),
    {
        copy_if_chain(self)
    }
}

impl Clone for ReturnStmt {
    fn clone(&self) -> (r: Self)
        ensures
            node_view(Node::Return(r)) == node_view(Node::Return(*self)),
    {
        ReturnStmt {
            value: match &self.value {
                Some(e) => Some(copy_expr(e)),
                None => None,
            },
            span: self.span,
        }
    }
}

impl Clone for ImportStmt {
    fn clone(&self) -> (r: Self)
        ensures
            import_view(r) == import_view(*self),
    {
        ImportStmt {
            module_name: self.module_name.clone(),
            items: copy_strings(&self.items),
            is_from: self.is_from,
            span: self.span,
        }
    }
}

impl Clone for Expr {
    fn clone(&self) -> (r: Self)
        ensures
            expr_view(r) == expr_view(*self),
    {
        copy_expr(self)
    }
}

} // verus!
