//! The analyzer crate's semantic analyzer: walks the tree with a stack of
//! scopes, gives every expression a type name, and collects an error for each
//! undefined name, incompatible assignment, non-boolean `if` condition and
//! impossible arithmetic. An `int` may be stored where a `float` is declared.

use vstd::prelude::*;
use crate::lexer::token::Span;
use crate::venus_parser::ast::{Program, Node, Variable, Assignment, Expr, BinOp, TypeExpr, Arg, ArgList, ImportStmt, IfChain};
use crate::analyzer::error::{VenusError, VenusErrorHandler, ErrorView, errors_view};
use crate::analyzer::scopes::{Scopes, FrameView, lookup, set_var, enter, exit};
use crate::analyzer::typing::{element_of, is_array_type, element_type, is_array, same_text, msg3, msg5};
use crate::text::{owned, concat};
use crate::lexer::scanner::{Scanner, scannable, can_scan};
use crate::venus_parser::parser::{Parser, program_at};
use crate::venus_parser::ast::nodes_view;
use crate::lexer::token::Token;
use crate::lexer::rules::{scan_run, start_state, tokens_view};

verus! {

broadcast use vstd::string::group_string_axioms;

/// What the analyzer knows: its scopes and the errors found so far.
pub struct AnalysisState {
    pub scopes: Seq<FrameView>,
    pub errors: Seq<ErrorView>,
}

/// The spelling of a type expression: `int`, `array[int]`, `array[array[int]]`.
pub open spec fn type_string(t: TypeExpr) -> Seq<char>
    decreases t,
{
    match t {
        TypeExpr::Named(n) => n@,
        TypeExpr::Array(inner) => "array["@ + type_string(*inner) + "]"@,
    }
}

/// Whether a value of type `actual` may be stored where `expected` is
/// declared: `unknown` on either side (so that one error does not cascade),
/// an empty array into any array type, any array type where a plain `array`
/// is declared, or the very same type. No other conversion is implicit.
pub open spec fn compatible(expected: Seq<char>, actual: Seq<char>) -> bool {
    ||| expected == "unknown"@
    ||| actual == "unknown"@
    ||| (actual == "array[unknown]"@ && is_array_type(expected))
    ||| (expected == "array"@ && is_array_type(actual))
    ||| expected == actual
}

pub open spec fn is_arithmetic(op: BinOp) -> bool {
    op is Add || op is Sub || op is Mul || op is Div || op is Mod
}

/// The result type of arithmetic on `l` and `r`, when it is allowed: numbers
/// of one kind (int with int, float with float; mixing them is no
/// implicit conversion), string `+` string, vectors
/// with themselves or scalars.
pub open spec fn arithmetic_type(l: Seq<char>, r: Seq<char>, op: BinOp) -> Option<Seq<char>> {
    let int_t = "int"@;
    let float_t = "float"@;
    if l == int_t && r == int_t {
        Some(int_t)
    } else if l == float_t && r == float_t {
        Some(float_t)
    } else if l == "string"@ && r == "string"@ && op is Add {
        Some("string"@)
    } else if "vec"@.is_prefix_of(l) && l == r {
        Some(l)
    } else if "vec"@.is_prefix_of(l) && (r == float_t || r == int_t) {
        Some(l)
    } else {
        None
    }
}

pub open spec fn undefined_error(name: Seq<char>, span: Span) -> ErrorView {
    ErrorView {
        title: "Undefined Variable"@,
        message: "Змінна '"@ + name + "' не знайдена у цій області видимості."@,
        hint: Some("Переконайтеся, що ви ініціалізували змінну перед використанням."@),
        span,
    }
}

pub open spec fn math_error(l: Seq<char>, r: Seq<char>, span: Span) -> ErrorView {
    ErrorView {
        title: "Invalid Math Operation"@,
        message: "Неможливо виконати операцію над несумісними типами: '"@ + l + "' та '"@ + r + "'."@,
        hint: Some("Використовуйте сумісні типи для математики."@),
        span,
    }
}

pub open spec fn mismatch_error(name: Seq<char>, declared: Seq<char>, actual: Seq<char>, span: Span) -> ErrorView {
    ErrorView {
        title: "Type Mismatch"@,
        message: "Ви намагаєтесь записати '"@ + actual + "' у змінну типу '"@ + declared + "'."@,
        hint: Some("Змініть тип змінної '"@ + name + "' на '"@ + actual
            + "', або передайте правильне значення."@),
        span,
    }
}

pub open spec fn assignment_error(target: Seq<char>, actual: Seq<char>, span: Span) -> ErrorView {
    ErrorView {
        title: "Invalid Assignment"@,
        message: "Неможливо записати значення типу '"@ + actual + "' у ціль типу '"@ + target + "'."@,
        hint: Some("Перевірте типи даних."@),
        span,
    }
}

/// The type of a binary operation on operands of types `l` and `r`, and the
/// error it raises: anything involving `unknown` is `unknown`; comparisons and
/// logic are `bool`; arithmetic follows `arithmetic_type`, or is an error.
pub open spec fn binary_type(l: Seq<char>, r: Seq<char>, op: BinOp, span: Span) -> (Seq<char>, Seq<ErrorView>) {
    if l == "unknown"@ || r == "unknown"@ {
        ("unknown"@, seq![])
    } else if is_arithmetic(op) {
        match arithmetic_type(l, r, op) {
            Some(t) => (t, seq![]),
            None => ("unknown"@, seq![math_error(l, r, span)]),
        }
    } else {
        ("bool"@, seq![])
    }
}

/// The type a call to a built-in constructor gives.
pub open spec fn constructor_type(name: Seq<char>) -> Option<Seq<char>> {
    if name == "alloc"@ {
        Some("buffer"@)
    } else if name == "spawn"@ {
        Some("task"@)
    } else if name == "tensor"@ {
        Some("tensor"@)
    } else if name == "signal"@ {
        Some("signal"@)
    } else {
        None
    }
}

/// The type of an expression under the scopes `sc`, and the errors its
/// analysis raises, in order.
pub open spec fn type_of(sc: Seq<FrameView>, e: Expr) -> (Seq<char>, Seq<ErrorView>)
    decreases e,
{
    match e {
        Expr::IntLiteral(..) => ("int"@, seq![]),
        Expr::FloatLiteral(..) => ("float"@, seq![]),
        Expr::StringLiteral(..) => ("string"@, seq![]),
        Expr::BoolLiteral(..) => ("bool"@, seq![]),
        Expr::ArrayLiteral(items, _) => {
            if items@.len() == 0 {
                ("array[unknown]"@, seq![])
            } else {
                let (t, errs) = type_of(sc, items@[0]);
                ("array["@ + t + "]"@, errs)
            }
        },
        Expr::Identifier(name, span) => match lookup(sc, name@) {
            Some(t) => (t, seq![]),
            None => ("unknown"@, seq![undefined_error(name@, span)]),
        },
        Expr::BinaryOp { left, op, right, .. } => {
            let (lt, le) = type_of(sc, *left);
            let (rt, re) = type_of(sc, *right);
            let (t, oe) = binary_type(lt, rt, op, e.spec_span());
            (t, le + re + oe)
        },
        Expr::MemberAccess { object, member, .. } => {
            let (_, errs) = type_of(sc, *object);
            if member@ == "len"@ {
                ("int"@, errs)
            } else if member@ == "to_string"@ {
                ("string"@, errs)
            } else {
                ("unknown"@, errs)
            }
        },
        Expr::Call { callee, args, .. } => {
            let (ct, ce) = type_of(sc, *callee);
            let errs = ce + args_errors(sc, args@);
            let special = match *callee {
                Expr::Identifier(name, _) => constructor_type(name@),
                _ => None,
            };
            match special {
                Some(t) => (t, errs),
                None => if ct == "func"@ {
                    ("unknown"@, errs)
                } else {
                    (ct, errs)
                },
            }
        },
        Expr::IndexAccess { object, index, .. } => {
            let (ot, oe) = type_of(sc, *object);
            let (_, ie) = type_of(sc, *index);
            if is_array_type(ot) {
                (element_of(ot), oe + ie)
            } else {
                ("unknown"@, oe + ie)
            }
        },
        Expr::UnaryOp { .. } => ("unknown"@, seq![]),
    }
}

/// The errors raised by analyzing each of `args` in turn.
pub open spec fn args_errors(sc: Seq<FrameView>, args: Seq<Expr>) -> Seq<ErrorView>
    decreases args,
{
    if args.len() == 0 {
        seq![]
    } else {
        type_of(sc, args[0]).1 + args_errors(sc, args.drop_first())
    }
}

pub open spec fn add_errors(st: AnalysisState, errs: Seq<ErrorView>) -> AnalysisState {
    AnalysisState { scopes: st.scopes, errors: st.errors + errs }
}

pub open spec fn with_scopes(st: AnalysisState, sc: Seq<FrameView>) -> AnalysisState {
    AnalysisState { scopes: sc, errors: st.errors }
}

pub open spec fn condition_error(t: Seq<char>, span: Span) -> ErrorView {
    ErrorView {
        title: "Type Mismatch"@,
        message: "Умова 'if' очікує 'bool', але отримано '"@ + t + "'"@,
        hint: Some("Використовуйте оператори порівняння (==, <, >)."@),
        span,
    }
}

/// What `from std import ..` declares: the standard objects, functions and
/// structs, in the innermost scope.
pub open spec fn std_scope(sc: Seq<FrameView>) -> Seq<FrameView> {
    set_var(set_var(set_var(set_var(set_var(set_var(set_var(set_var(set_var(set_var(set_var(set_var(set_var(set_var(set_var(set_var(set_var(set_var(set_var(set_var(set_var(set_var(set_var(set_var(sc, "class"@, "object"@), "console"@, "object"@), "math"@, "object"@), "system"@, "object"@), "hardware"@, "object"@), "UI"@, "object"@), "string"@, "object"@), "int"@, "object"@), "float"@, "object"@), "bool"@, "object"@), "array"@, "object"@), "buffer"@, "object"@), "tensor"@, "object"@), "signal"@, "object"@), "task"@, "object"@), "alloc"@, "func"@), "spawn"@, "func"@), "vec2"@, "struct"@), "vec3"@, "struct"@), "vec4"@, "struct"@), "mat2"@, "struct"@), "mat3"@, "struct"@), "mat4"@, "struct"@), "print"@, "func"@)
}

/// The program of a module, as it was provided: the first entry of that name.
pub open spec fn module_program(mods: Seq<(String, Program)>, name: Seq<char>) -> Option<Program>
    decreases mods.len(),
{
    if mods.len() == 0 {
        None
    } else if mods[0].0@ == name {
        Some(mods[0].1)
    } else {
        module_program(mods.drop_first(), name)
    }
}

/// Whether an import statement names `name` (or `*`) among its items.
pub open spec fn imports_item(imp: ImportStmt, name: Seq<char>) -> bool {
    exists|i: int| 0 <= i < imp.items@.len() && (imp.items@[i]@ == "*"@ || imp.items@[i]@ == name)
}

/// The declarations `from m import ..` takes from the nodes of module `m`:
/// each exported variable that is imported by name or by `*`.
pub open spec fn take_exports(sc: Seq<FrameView>, imp: ImportStmt, ns: Seq<Node>) -> Seq<FrameView>
    decreases ns.len(),
{
    if ns.len() == 0 {
        sc
    } else {
        let sc1 = match ns[0] {
            Node::Variable(v) => if v.is_export && imp.is_from && imports_item(imp, v.name@) {
                set_var(sc, v.name@, type_string(v.type_expr))
            } else {
                sc
            },
            _ => sc,
        };
        take_exports(sc1, imp, ns.drop_first())
    }
}

/// An import: `std` declares itself, or (with `from`) the standard names; any
/// other module declares what it exports and is imported, when it was provided.
pub open spec fn visit_import(st: AnalysisState, imp: ImportStmt, mods: Seq<(String, Program)>) -> AnalysisState {
    if imp.module_name@ == "std"@ {
        if imp.is_from {
            with_scopes(st, std_scope(st.scopes))
        } else {
            with_scopes(st, set_var(st.scopes, "std"@, "object"@))
        }
    } else {
        match module_program(mods, imp.module_name@) {
            Some(p) => with_scopes(st, take_exports(st.scopes, imp, p.nodes@)),
            None => st,
        }
    }
}

/// Analysis of a node.
pub open spec fn visit_node(st: AnalysisState, n: Node, mods: Seq<(String, Program)>) -> AnalysisState
    decreases n, 2nat,
{
    match n {
        Node::Variable(v) => visit_variable(st, v, mods),
        Node::Assignment(a) => visit_assignment(st, a),
        Node::ExprStmt(e) => add_errors(st, type_of(st.scopes, e).1),
        Node::IfChain(i) => visit_if(st, i, mods),
        Node::WhileLoop(w) => {
            let st1 = add_errors(st, type_of(st.scopes, w.condition).1);
            visit_block(st1, w.body@, mods)
        },
        Node::ForLoop(f) => {
            let (it, ie) = type_of(st.scopes, f.iterable);
            let element = if is_array_type(it) { element_of(it) } else { "unknown"@ };
            let st1 = add_errors(st, ie);
            let st2 = with_scopes(st1, set_var(enter(st1.scopes), f.var_name@, element));
            let st3 = visit_nodes(st2, f.body@, mods);
            with_scopes(st3, exit(st3.scopes))
        },
        Node::Import(imp) => visit_import(st, imp, mods),
        Node::Return(_) => st,
    }
}

/// Analysis of a block in a scope of its own.
pub open spec fn visit_block(st: AnalysisState, body: Seq<Node>, mods: Seq<(String, Program)>) -> AnalysisState
    decreases body, 1nat,
{
    let st1 = visit_nodes(with_scopes(st, enter(st.scopes)), body, mods);
    with_scopes(st1, exit(st1.scopes))
}

/// An `if` chain: the condition must be `bool` (or `unknown`); each branch is
/// analyzed in a scope of its own; `elif` conditions are analyzed too.
pub open spec fn visit_if(st: AnalysisState, i: IfChain, mods: Seq<(String, Program)>) -> AnalysisState
    decreases i, 2nat,
{
    let (ct, ce) = type_of(st.scopes, i.condition);
    let st1 = add_errors(st, ce);
    let st2 = if ct != "bool"@ && ct != "unknown"@ {
        add_errors(st1, seq![condition_error(ct, i.condition.spec_span())])
    } else {
        st1
    };
    let st3 = visit_block(st2, i.then_body@, mods);
    let st4 = visit_elifs(st3, i.elif_branches@, mods);
    match i.else_body {
        Some(b) => visit_block(st4, b@, mods),
        None => st4,
    }
}

pub open spec fn visit_elifs(st: AnalysisState, bs: Seq<(Expr, Vec<Node>)>, mods: Seq<(String, Program)>) -> AnalysisState
    decreases bs, 2nat,
{
    if bs.len() == 0 {
        st
    } else {
        let st1 = add_errors(st, type_of(st.scopes, bs[0].0).1);
        visit_elifs(visit_block(st1, bs[0].1@, mods), bs.drop_first(), mods)
    }
}

/// Analysis of nodes in turn.
pub open spec fn visit_nodes(st: AnalysisState, ns: Seq<Node>, mods: Seq<(String, Program)>) -> AnalysisState
    decreases ns, 0nat,
{
    if ns.len() == 0 {
        st
    } else {
        visit_nodes(visit_node(st, ns[0], mods), ns.drop_first(), mods)
    }
}

pub open spec fn visit_assignment(st: AnalysisState, a: Assignment) -> AnalysisState {
    let (tt, te) = type_of(st.scopes, a.target);
    let (vt, ve) = type_of(st.scopes, a.value);
    let st1 = add_errors(st, te + ve);
    if compatible(tt, vt) {
        st1
    } else {
        add_errors(st1, seq![assignment_error(tt, vt, a.value.spec_span())])
    }
}

/// Typed arguments declare their names in the current scope.
pub open spec fn declare_args(sc: Seq<FrameView>, args: Seq<Arg>) -> Seq<FrameView>
    decreases args.len(),
{
    if args.len() == 0 {
        sc
    } else {
        let sc1 = match args[0] {
            Arg::Typed { ty, name, .. } => set_var(sc, name@, type_string(ty)),
            _ => sc,
        };
        declare_args(sc1, args.drop_first())
    }
}

/// Analysis of a declaration: its name gets its declared type, its value is
/// checked against that type, and (unless it is an `enum`) its content is
/// analyzed in a scope where its typed arguments are declared.
pub open spec fn visit_variable(st: AnalysisState, v: Variable, mods: Seq<(String, Program)>) -> AnalysisState
    decreases v, 2nat,
{
    let declared = type_string(v.type_expr);
    let st1 = with_scopes(st, set_var(st.scopes, v.name@, declared));
    let st2 = match v.value {
        Some(e) => {
            let (vt, ve) = type_of(st1.scopes, e);
            let st_a = add_errors(st1, ve);
            if compatible(declared, vt) {
                st_a
            } else {
                add_errors(st_a, seq![mismatch_error(v.name@, declared, vt, e.spec_span())])
            }
        },
        None => st1,
    };
    if v.content@.len() == 0 {
        st2
    } else {
        let sc = enter(st2.scopes);
        let sc = match v.arguments {
            Some(list) => declare_args(sc, list.args@),
            None => sc,
        };
        let st3 = with_scopes(st2, sc);
        let st4 = if declared == "enum"@ { st3 } else { visit_nodes(st3, v.content@, mods) };
        with_scopes(st4, exit(st4.scopes))
    }
}

// ── Laws ──

/// What a step of analysis keeps: the scope stack is as deep as before, every
/// frame but the innermost is untouched, and the errors found before are still
/// there, in front.
pub open spec fn keeps(st: AnalysisState, next: AnalysisState) -> bool {
    &&& next.scopes.len() == st.scopes.len()
    &&& forall|i: int| 0 <= i < st.scopes.len() - 1 ==> #[trigger] next.scopes[i] == st.scopes[i]
    &&& st.errors.is_prefix_of(next.errors)
}

/// The scopes an import leaves: `std` itself, or the standard names (with
/// `from`), or the imported exports of a provided module.
pub open spec fn import_scopes(sc: Seq<FrameView>, imp: ImportStmt, mods: Seq<(String, Program)>) -> Seq<FrameView> {
    if imp.module_name@ == "std"@ {
        if imp.is_from {
            std_scope(sc)
        } else {
            set_var(sc, "std"@, "object"@)
        }
    } else {
        match module_program(mods, imp.module_name@) {
            Some(p) => take_exports(sc, imp, p.nodes@),
            None => sc,
        }
    }
}

/// The scopes after a node: a declaration leaves its own name declared, an
/// import what it imports; every block (`if`, `elif`, `else`, `while`, `for`,
/// a declaration's content) takes its own declarations with it.
pub open spec fn node_scopes(sc: Seq<FrameView>, n: Node, mods: Seq<(String, Program)>) -> Seq<FrameView> {
    match n {
        Node::Variable(v) => set_var(sc, v.name@, type_string(v.type_expr)),
        Node::Import(imp) => import_scopes(sc, imp, mods),
        _ => sc,
    }
}

proof fn lemma_keeps_trans(a: AnalysisState, b: AnalysisState, c: AnalysisState)
    requires
        keeps(a, b),
        keeps(b, c),
    ensures
        keeps(a, c),
{
    assert forall|i: int| 0 <= i < a.errors.len() implies a.errors[i] == c.errors[i] by {
        assert(a.errors[i] == b.errors[i]);
    }
    assert forall|i: int| 0 <= i < a.scopes.len() - 1 implies #[trigger] c.scopes[i] == a.scopes[i] by {
        assert(c.scopes[i] == b.scopes[i]);
    }
}

proof fn lemma_keeps_add(st: AnalysisState, errs: Seq<ErrorView>)
    ensures
        keeps(st, add_errors(st, errs)),
{
    assert(st.errors.is_prefix_of(st.errors + errs)) by {
        assert forall|i: int| 0 <= i < st.errors.len() implies st.errors[i] == (st.errors + errs)[i] by {}
    }
}

proof fn lemma_keeps_refl(st: AnalysisState)
    ensures
        keeps(st, st),
{
    assert(st.errors.is_prefix_of(st.errors));
}

proof fn lemma_keeps_set_var(st: AnalysisState, name: Seq<char>, ty: Seq<char>)
    ensures
        keeps(st, with_scopes(st, set_var(st.scopes, name, ty))),
{
    assert(st.errors.is_prefix_of(st.errors));
}

proof fn lemma_declare_args_keeps(st: AnalysisState, args: Seq<Arg>)
    ensures
        keeps(st, with_scopes(st, declare_args(st.scopes, args))),
    decreases args.len(),
{
    if args.len() == 0 {
        lemma_keeps_refl(st);
    } else {
        let sc1 = match args[0] {
            Arg::Typed { ty, name, .. } => set_var(st.scopes, name@, type_string(ty)),
            _ => st.scopes,
        };
        let st1 = with_scopes(st, sc1);
        match args[0] {
            Arg::Typed { ty, name, .. } => lemma_keeps_set_var(st, name@, type_string(ty)),
            _ => lemma_keeps_refl(st),
        }
        lemma_declare_args_keeps(st1, args.drop_first());
        lemma_keeps_trans(st, st1, with_scopes(st, declare_args(st.scopes, args)));
    }
}

proof fn lemma_take_exports_keeps(st: AnalysisState, imp: ImportStmt, ns: Seq<Node>)
    ensures
        keeps(st, with_scopes(st, take_exports(st.scopes, imp, ns))),
    decreases ns.len(),
{
    if ns.len() == 0 {
        lemma_keeps_refl(st);
    } else {
        let sc1 = match ns[0] {
            Node::Variable(v) => if v.is_export && imp.is_from && imports_item(imp, v.name@) {
                set_var(st.scopes, v.name@, type_string(v.type_expr))
            } else {
                st.scopes
            },
            _ => st.scopes,
        };
        let st1 = with_scopes(st, sc1);
        match ns[0] {
            Node::Variable(v) => if v.is_export && imp.is_from && imports_item(imp, v.name@) {
                lemma_keeps_set_var(st, v.name@, type_string(v.type_expr));
            } else {
                lemma_keeps_refl(st);
            },
            _ => lemma_keeps_refl(st),
        }
        lemma_take_exports_keeps(st1, imp, ns.drop_first());
        lemma_keeps_trans(st, st1, with_scopes(st, take_exports(st.scopes, imp, ns)));
    }
}

proof fn lemma_std_scope_keeps(st: AnalysisState)
    ensures
        keeps(st, with_scopes(st, std_scope(st.scopes))),
{
    assert forall|sc: Seq<FrameView>, name: Seq<char>, ty: Seq<char>|
        #[trigger] set_var(sc, name, ty).len() == sc.len()
        && forall|i: int| 0 <= i < sc.len() - 1 ==> set_var(sc, name, ty)[i] == sc[i] by {}
    assert(st.errors.is_prefix_of(st.errors));
}

proof fn lemma_import_keeps(st: AnalysisState, imp: ImportStmt, mods: Seq<(String, Program)>)
    ensures
        keeps(st, visit_import(st, imp, mods)),
        visit_import(st, imp, mods).scopes == import_scopes(st.scopes, imp, mods),
{
    if imp.module_name@ == "std"@ {
        if imp.is_from {
            lemma_std_scope_keeps(st);
        } else {
            lemma_keeps_set_var(st, "std"@, "object"@);
        }
    } else {
        match module_program(mods, imp.module_name@) {
            Some(p) => lemma_take_exports_keeps(st, imp, p.nodes@),
            None => lemma_keeps_refl(st),
        }
    }
}

/// A block run in a fresh innermost scope (`start` is one frame deeper than
/// `outer`, with the same frames below) hands back, once that scope is
/// closed, exactly the scopes of `outer`, and only adds errors.
proof fn lemma_block_closes(outer: AnalysisState, start: AnalysisState, end: AnalysisState)
    requires
        start.scopes.len() == outer.scopes.len() + 1,
        forall|i: int| 0 <= i < outer.scopes.len() ==> #[trigger] start.scopes[i] == outer.scopes[i],
        outer.errors.is_prefix_of(start.errors),
        keeps(start, end),
    ensures
        with_scopes(end, exit(end.scopes)).scopes == outer.scopes,
        keeps(outer, with_scopes(end, exit(end.scopes))),
{
    let closed = exit(end.scopes);
    assert(closed.len() == outer.scopes.len());
    assert forall|i: int| 0 <= i < outer.scopes.len() implies closed[i] == outer.scopes[i] by {
        assert(end.scopes[i] == start.scopes[i]);
    }
    assert(closed =~= outer.scopes);
    assert forall|i: int| 0 <= i < outer.errors.len() implies outer.errors[i] == end.errors[i] by {
        assert(outer.errors[i] == start.errors[i]);
    }
}

/// A block leaves the scopes as it found them and only adds errors.
pub proof fn lemma_visit_block_keeps(st: AnalysisState, body: Seq<Node>, mods: Seq<(String, Program)>)
    ensures
        keeps(st, visit_block(st, body, mods)),
        visit_block(st, body, mods).scopes == st.scopes,
    decreases body, 1nat,
{
    let st0 = with_scopes(st, enter(st.scopes));
    lemma_visit_nodes_keeps(st0, body, mods);
    assert(st.errors.is_prefix_of(st0.errors));
    lemma_block_closes(st, st0, visit_nodes(st0, body, mods));
}

proof fn lemma_visit_elifs_keeps(st: AnalysisState, bs: Seq<(Expr, Vec<Node>)>, mods: Seq<(String, Program)>)
    ensures
        keeps(st, visit_elifs(st, bs, mods)),
        visit_elifs(st, bs, mods).scopes == st.scopes,
    decreases bs, 1nat,
{
    if bs.len() == 0 {
        lemma_keeps_refl(st);
    } else {
        let st1 = add_errors(st, type_of(st.scopes, bs[0].0).1);
        lemma_keeps_add(st, type_of(st.scopes, bs[0].0).1);
        assert(decreases_to!(bs => bs[0]));
        assert(decreases_to!(bs[0] => bs[0].1));
        assert(decreases_to!(bs[0].1 => bs[0].1@));
        lemma_visit_block_keeps(st1, bs[0].1@, mods);
        let st2 = visit_block(st1, bs[0].1@, mods);
        lemma_keeps_trans(st, st1, st2);
        lemma_visit_elifs_keeps(st2, bs.drop_first(), mods);
        lemma_keeps_trans(st, st2, visit_elifs(st, bs, mods));
    }
}

proof fn lemma_visit_if_keeps(st: AnalysisState, i: IfChain, mods: Seq<(String, Program)>)
    ensures
        keeps(st, visit_if(st, i, mods)),
        visit_if(st, i, mods).scopes == st.scopes,
    decreases i, 1nat,
{
    let (ct, ce) = type_of(st.scopes, i.condition);
    let st1 = add_errors(st, ce);
    lemma_keeps_add(st, ce);
    let st2 = if ct != "bool"@ && ct != "unknown"@ {
        add_errors(st1, seq![condition_error(ct, i.condition.spec_span())])
    } else {
        st1
    };
    if ct != "bool"@ && ct != "unknown"@ {
        lemma_keeps_add(st1, seq![condition_error(ct, i.condition.spec_span())]);
        lemma_keeps_trans(st, st1, st2);
    }
    assert(decreases_to!(i => i.then_body));
    lemma_visit_block_keeps(st2, i.then_body@, mods);
    let st3 = visit_block(st2, i.then_body@, mods);
    lemma_keeps_trans(st, st2, st3);
    assert(decreases_to!(i => i.elif_branches));
    lemma_visit_elifs_keeps(st3, i.elif_branches@, mods);
    let st4 = visit_elifs(st3, i.elif_branches@, mods);
    lemma_keeps_trans(st, st3, st4);
    match i.else_body {
        Some(b) => {
            assert(decreases_to!(i => i.else_body));
            lemma_visit_block_keeps(st4, b@, mods);
            lemma_keeps_trans(st, st4, visit_if(st, i, mods));
        },
        None => {},
    }
}

/// Analyzing a node leaves the scope stack as deep as it found it, touches no
/// frame but the innermost, leaves declared only what the node itself declares
/// (every scope opened for a block is closed again), and never takes back an
/// error: it only appends.
pub proof fn lemma_visit_node_keeps(st: AnalysisState, n: Node, mods: Seq<(String, Program)>)
    ensures
        keeps(st, visit_node(st, n, mods)),
        visit_node(st, n, mods).scopes == node_scopes(st.scopes, n, mods),
    decreases n, 2nat,
{
    match n {
        Node::Variable(v) => lemma_visit_variable_keeps(st, v, mods),
        Node::Assignment(a) => {
            let (tt, te) = type_of(st.scopes, a.target);
            let (vt, ve) = type_of(st.scopes, a.value);
            let st1 = add_errors(st, te + ve);
            lemma_keeps_add(st, te + ve);
            if !compatible(tt, vt) {
                lemma_keeps_add(st1, seq![assignment_error(tt, vt, a.value.spec_span())]);
                lemma_keeps_trans(st, st1, visit_node(st, n, mods));
            }
        },
        Node::ExprStmt(e) => lemma_keeps_add(st, type_of(st.scopes, e).1),
        Node::IfChain(i) => lemma_visit_if_keeps(st, i, mods),
        Node::WhileLoop(w) => {
            let st1 = add_errors(st, type_of(st.scopes, w.condition).1);
            lemma_keeps_add(st, type_of(st.scopes, w.condition).1);
            assert(decreases_to!(w => w.body));
            lemma_visit_block_keeps(st1, w.body@, mods);
            lemma_keeps_trans(st, st1, visit_node(st, n, mods));
        },
        Node::ForLoop(f) => {
            let (it, ie) = type_of(st.scopes, f.iterable);
            let element = if is_array_type(it) { element_of(it) } else { "unknown"@ };
            let st1 = add_errors(st, ie);
            lemma_keeps_add(st, ie);
            let st_e = with_scopes(st1, enter(st1.scopes));
            let st2 = with_scopes(st1, set_var(enter(st1.scopes), f.var_name@, element));
            lemma_keeps_set_var(st_e, f.var_name@, element);
            assert(decreases_to!(f => f.body));
            lemma_visit_nodes_keeps(st2, f.body@, mods);
            let st3 = visit_nodes(st2, f.body@, mods);
            lemma_keeps_trans(st_e, st2, st3);
            assert(st1.errors.is_prefix_of(st_e.errors));
            lemma_block_closes(st1, st_e, st3);
            lemma_keeps_trans(st, st1, visit_node(st, n, mods));
        },
        Node::Import(imp) => lemma_import_keeps(st, imp, mods),
        Node::Return(_) => lemma_keeps_refl(st),
    }
}

/// Analyzing nodes in turn keeps the depth of the scope stack, the frames
/// below the innermost, and the errors already found.
pub proof fn lemma_visit_nodes_keeps(st: AnalysisState, ns: Seq<Node>, mods: Seq<(String, Program)>)
    ensures
        keeps(st, visit_nodes(st, ns, mods)),
    decreases ns, 0nat,
{
    if ns.len() == 0 {
        lemma_keeps_refl(st);
    } else {
        let st1 = visit_node(st, ns[0], mods);
        lemma_visit_node_keeps(st, ns[0], mods);
        lemma_visit_nodes_keeps(st1, ns.drop_first(), mods);
        lemma_keeps_trans(st, st1, visit_nodes(st, ns, mods));
    }
}

/// Analyzing a declaration keeps what every step keeps, and leaves declared
/// only its own name: whatever its content declares goes out of scope with it.
pub proof fn lemma_visit_variable_keeps(st: AnalysisState, v: Variable, mods: Seq<(String, Program)>)
    ensures
        keeps(st, visit_variable(st, v, mods)),
        visit_variable(st, v, mods).scopes == set_var(st.scopes, v.name@, type_string(v.type_expr)),
    decreases v, 1nat,
{
    let declared = type_string(v.type_expr);
    let st1 = with_scopes(st, set_var(st.scopes, v.name@, declared));
    lemma_keeps_set_var(st, v.name@, declared);
    let st2 = match v.value {
        Some(e) => {
            let (vt, ve) = type_of(st1.scopes, e);
            let st_a = add_errors(st1, ve);
            if compatible(declared, vt) {
                st_a
            } else {
                add_errors(st_a, seq![mismatch_error(v.name@, declared, vt, e.spec_span())])
            }
        },
        None => st1,
    };
    assert(keeps(st1, st2) && st2.scopes == st1.scopes) by {
        match v.value {
            Some(e) => {
                let (vt, ve) = type_of(st1.scopes, e);
                let st_a = add_errors(st1, ve);
                lemma_keeps_add(st1, ve);
                if !compatible(declared, vt) {
                    lemma_keeps_add(st_a, seq![mismatch_error(v.name@, declared, vt, e.spec_span())]);
                    lemma_keeps_trans(st1, st_a, st2);
                }
            },
            None => lemma_keeps_refl(st1),
        }
    }
    lemma_keeps_trans(st, st1, st2);
    if v.content@.len() > 0 {
        let st_e = with_scopes(st2, enter(st2.scopes));
        let st3 = match v.arguments {
            Some(list) => with_scopes(st_e, declare_args(st_e.scopes, list.args@)),
            None => st_e,
        };
        match v.arguments {
            Some(list) => lemma_declare_args_keeps(st_e, list.args@),
            None => lemma_keeps_refl(st_e),
        }
        let st4 = if declared == "enum"@ { st3 } else { visit_nodes(st3, v.content@, mods) };
        if declared != "enum"@ {
            assert(decreases_to!(v => v.content@));
            lemma_visit_nodes_keeps(st3, v.content@, mods);
        } else {
            lemma_keeps_refl(st3);
        }
        lemma_keeps_trans(st_e, st3, st4);
        assert(st2.errors.is_prefix_of(st_e.errors));
        lemma_block_closes(st2, st_e, st4);
        lemma_keeps_trans(st, st2, visit_variable(st, v, mods));
    }
}

/// No implicit conversion: two different types, neither of them `unknown`,
/// are incompatible (the allowances are array ones: an empty array literal,
/// whose type is `array[unknown]`, stored into an array, and any array stored
/// where a plain `array` is declared).
pub proof fn lemma_no_implicit_conversion(expected: Seq<char>, actual: Seq<char>)
    requires
        expected != actual,
        expected != "unknown"@,
        actual != "unknown"@,
        actual != "array[unknown]"@,
        expected != "array"@,
    ensures
        !compatible(expected, actual),
{
}

/// Every type fits a variable of the same type, and an unknown type fits
/// anywhere and takes anything.
pub proof fn lemma_compatible_accepts(t: Seq<char>)
    ensures
        compatible(t, t),
        compatible("unknown"@, t),
        compatible(t, "unknown"@),
{
}

/// Arithmetic keeps the type of its operands: two operands of one type give
/// that type or nothing, and two `int`s give an `int`, two `float`s a
/// `float`, whatever the operator.
pub proof fn lemma_arithmetic_keeps_type(t: Seq<char>, op: BinOp)
    ensures
        arithmetic_type(t, t, op) matches Some(u) ==> u == t,
        arithmetic_type("int"@, "int"@, op) == Some("int"@),
        arithmetic_type("float"@, "float"@, op) == Some("float"@),
{
}

/// Arithmetic never mixes `int` and `float`: either order is refused.
pub proof fn lemma_no_mixed_arithmetic(op: BinOp)
    ensures
        arithmetic_type("int"@, "float"@, op) is None,
        arithmetic_type("float"@, "int"@, op) is None,
{
    reveal_strlit("int");
    reveal_strlit("float");
    reveal_strlit("vec");
    reveal_strlit("string");
    assert(!"vec"@.is_prefix_of("int"@)) by { assert("vec"@[0] != "int"@[0]); }
    assert(!"vec"@.is_prefix_of("float"@)) by { assert("vec"@[0] != "float"@[0]); }
    assert("int"@ != "float"@) by { assert("int"@.len() != "float"@.len()); }
    assert("int"@ != "string"@) by { assert("int"@.len() != "string"@.len()); }
    assert("float"@ != "string"@) by { assert("float"@.len() != "string"@.len()); }
}

/// A declaration whose value has a type incompatible with the declared one
/// is reported as a type mismatch, naming the variable, both types and the
/// value's place in the source.
pub proof fn lemma_mismatch_is_reported(st: AnalysisState, v: Variable, e: Expr, mods: Seq<(String, Program)>)
    requires
        v.value == Some(e),
        !compatible(type_string(v.type_expr), type_of(set_var(st.scopes, v.name@, type_string(v.type_expr)), e).0),
    ensures
        visit_variable(st, v, mods).errors.contains(mismatch_error(
            v.name@,
            type_string(v.type_expr),
            type_of(set_var(st.scopes, v.name@, type_string(v.type_expr)), e).0,
            e.spec_span(),
        )),
{
    let declared = type_string(v.type_expr);
    let st1 = with_scopes(st, set_var(st.scopes, v.name@, declared));
    let (vt, ve) = type_of(st1.scopes, e);
    let st_a = add_errors(st1, ve);
    let err = mismatch_error(v.name@, declared, vt, e.spec_span());
    let st2 = add_errors(st_a, seq![err]);
    assert(st2.errors[st_a.errors.len() as int] == err);
    if v.content@.len() > 0 {
        let st_e = with_scopes(st2, enter(st2.scopes));
        let st3 = match v.arguments {
            Some(list) => with_scopes(st_e, declare_args(st_e.scopes, list.args@)),
            None => st_e,
        };
        match v.arguments {
            Some(list) => lemma_declare_args_keeps(st_e, list.args@),
            None => lemma_keeps_refl(st_e),
        }
        let st4 = if declared == "enum"@ { st3 } else { visit_nodes(st3, v.content@, mods) };
        if declared != "enum"@ {
            lemma_visit_nodes_keeps(st3, v.content@, mods);
        } else {
            lemma_keeps_refl(st3);
        }
        lemma_keeps_trans(st_e, st3, st4);
        assert(st2.errors.is_prefix_of(st_e.errors));
        lemma_block_closes(st2, st_e, st4);
        let fin = visit_variable(st, v, mods);
        assert(fin.errors[st_a.errors.len() as int] == err);
    }
}

pub struct SemanticAnalyzer<'a> {
    scopes: Scopes,
    pub errors: Vec<VenusError>,
    error_handler: VenusErrorHandler<'a>,
    modules: Vec<(String, Program)>,
}

impl<'a> SemanticAnalyzer<'a> {
    /// The scopes and errors.
    pub closed spec fn state(self) -> AnalysisState {
        AnalysisState { scopes: self.scopes.view(), errors: errors_view(self.errors@) }
    }

    /// The handler that renders this analyzer's errors.
    pub closed spec fn handler(self) -> VenusErrorHandler<'a> {
        self.error_handler
    }

    /// The modules that imports can read, by name.
    pub closed spec fn modules(self) -> Seq<(String, Program)> {
        self.modules@
    }

    pub fn new(source_code: &'a str, file_name: &'a str) -> (a: Self)
        ensures
            a.state() == (AnalysisState { scopes: seq![Seq::<(Seq<char>, Seq<char>)>::empty()], errors: seq![] }),
            a.handler().source() == source_code@,
            a.handler().file() == file_name@,
            a.modules().len() == 0,
    {
        let a = Self {
            scopes: Scopes::global(),  // Global scope
            errors: Vec::new(),
            error_handler: VenusErrorHandler::new(source_code, file_name),
            modules: Vec::new(),
        };
        assert(errors_view(a.errors@) =~= seq![]);
        a
    }

    /// Makes the program of module `name` (the file `<name>.vs`) available to
    /// `from <name> import ..`.
    pub fn add_module(&mut self, name: String, program: Program)
        ensures
            final(self).modules() == old(self).modules().push((name, program)),
            final(self).state() == old(self).state(),
            final(self).handler() == old(self).handler(),
    {
        self.modules.push((name, program));
    }

    /// The error handler, for reporting the errors found.
    pub fn error_handler(&self) -> (h: &VenusErrorHandler<'a>)
        ensures
            *h == self.handler(),
    {
        &self.error_handler
    }

    /// Analyzes the program's nodes in order; true when no error was found
    /// (including earlier ones).
    pub fn analyze(&mut self, program: &Program) -> (valid: bool)
        ensures
            final(self).state() == visit_nodes(old(self).state(), program.nodes@, old(self).modules()),
            final(self).handler() == old(self).handler(),
            final(self).modules() == old(self).modules(),
            valid == (final(self).state().errors.len() == 0),
    {
        self.visit_all(&program.nodes);
        self.errors.len() == 0
    }

    fn visit_all(&mut self, nodes: &Vec<Node>)
        ensures
            final(self).state() == visit_nodes(old(self).state(), nodes@, old(self).modules()),
            final(self).handler() == old(self).handler(),
            final(self).modules() == old(self).modules(),
        decreases nodes, 0nat,
    {
        let mut i: usize = 0;
        assert(nodes@.skip(0) == nodes@);
        while i < nodes.len()
            invariant
                i <= nodes@.len(),
                visit_nodes(old(self).state(), nodes@, old(self).modules()) == visit_nodes(self.state(), nodes@.skip(i as int), old(self).modules()),
                self.handler() == old(self).handler(),
                self.modules() == old(self).modules(),
            decreases nodes@.len() - i,
        {
            proof {
                assert(decreases_to!(nodes => nodes@[i as int]));
                assert(nodes@.skip(i as int)[0] == nodes@[i as int]);
                assert(nodes@.skip(i as int).drop_first() == nodes@.skip(i + 1));
            }
            self.visit_node(&nodes[i]);
            i = i + 1;
        }
        assert(nodes@.skip(nodes@.len() as int).len() == 0);
    }

    /// Analyzes a block in a scope of its own.
    fn visit_block(&mut self, body: &Vec<Node>)
        ensures
            final(self).state() == visit_block(old(self).state(), body@, old(self).modules()),
            final(self).handler() == old(self).handler(),
            final(self).modules() == old(self).modules(),
        decreases body, 1nat,
    {
        self.enter_scope();
        self.visit_all(body);
        self.exit_scope();
    }

    fn push_error(&mut self, e: VenusError)
        ensures
            final(self).state() == add_errors(old(self).state(), seq![e.view()]),
            final(self).handler() == old(self).handler(),
            final(self).modules() == old(self).modules(),
    {
        self.errors.push(e);
        assert(errors_view(self.errors@) =~= errors_view(old(self).errors@) + seq![e.view()]);
    }

    fn enter_scope(&mut self)
        ensures
            final(self).state() == with_scopes(old(self).state(), enter(old(self).state().scopes)),
            final(self).handler() == old(self).handler(),
            final(self).modules() == old(self).modules(),
    {
        self.scopes.enter_scope();
    }

    fn exit_scope(&mut self)
        ensures
            final(self).state() == with_scopes(old(self).state(), exit(old(self).state().scopes)),
            final(self).handler() == old(self).handler(),
            final(self).modules() == old(self).modules(),
    {
        self.scopes.exit_scope();
    }

    fn set_var_type(&mut self, name: &str, ty: &str)
        ensures
            final(self).state() == with_scopes(old(self).state(), set_var(old(self).state().scopes, name@, ty@)),
            final(self).handler() == old(self).handler(),
            final(self).modules() == old(self).modules(),
    {
        self.scopes.set_var_type(name, ty);
    }

    fn visit_node(&mut self, node: &Node)
        ensures
            final(self).state() == visit_node(old(self).state(), *node, old(self).modules()),
            final(self).handler() == old(self).handler(),
            final(self).modules() == old(self).modules(),
        decreases node, 2nat,
    {
        match node {
            Node::Variable(var) => self.visit_variable(var),
            Node::Assignment(assign) => self.visit_assignment(assign),
            Node::ExprStmt(expr) => {
                self.get_type_of_expr(expr);
            },
            Node::IfChain(if_chain) => self.visit_if(if_chain),
            Node::WhileLoop(while_loop) => {
                self.get_type_of_expr(&while_loop.condition);
                self.visit_block(&while_loop.body);
            },
            Node::ForLoop(for_loop) => {
                let iter_ty = self.get_type_of_expr(&for_loop.iterable);
                let element_ty = if is_array(iter_ty.as_str()) {
                    element_type(iter_ty.as_str())
                } else {
                    owned("unknown")
                };
                self.enter_scope();
                self.set_var_type(for_loop.var_name.as_str(), element_ty.as_str());
                self.visit_all(&for_loop.body);
                self.exit_scope();
            },
            Node::Import(imp) => self.visit_import(imp),
            Node::Return(_) => {},  // returns are not checked
        }
    }

    fn visit_if(&mut self, if_chain: &IfChain)
        ensures
            final(self).state() == visit_if(old(self).state(), *if_chain, old(self).modules()),
            final(self).handler() == old(self).handler(),
            final(self).modules() == old(self).modules(),
        decreases if_chain, 2nat,
    {
        let ghost st0 = self.state();
        let cond_ty = self.get_type_of_expr(&if_chain.condition);
        if !same_text(cond_ty.as_str(), "bool") && !same_text(cond_ty.as_str(), "unknown") {
            let e = VenusError {
                title: owned("Type Mismatch"),
                message: msg3("Умова 'if' очікує 'bool', але отримано '", cond_ty.as_str(), "'"),
                hint: Some(owned("Використовуйте оператори порівняння (==, <, >).")),
                span: if_chain.condition.span(),
            };
            self.push_error(e);
        }
        proof {
            assert(decreases_to!(if_chain => if_chain.then_body));
        }
        self.visit_block(&if_chain.then_body);

        let branches = &if_chain.elif_branches;
        let ghost st3 = self.state();
        let mut i: usize = 0;
        assert(branches@.skip(0) == branches@);
        while i < branches.len()
            invariant
                i <= branches@.len(),
                visit_elifs(st3, branches@, old(self).modules()) == visit_elifs(self.state(), branches@.skip(i as int), old(self).modules()),
                self.handler() == old(self).handler(),
                self.modules() == old(self).modules(),
                *branches == if_chain.elif_branches,
            decreases branches@.len() - i,
        {
            proof {
                assert(decreases_to!(if_chain => if_chain.elif_branches@[i as int].1));
                assert(branches@.skip(i as int)[0] == branches@[i as int]);
                assert(branches@.skip(i as int).drop_first() == branches@.skip(i + 1));
            }
            let (cond, body) = &branches[i];
            self.get_type_of_expr(cond);
            self.visit_block(body);
            i = i + 1;
        }
        assert(branches@.skip(branches@.len() as int).len() == 0);
        if let Some(else_body) = &if_chain.else_body {
            proof {
                assert(decreases_to!(if_chain => if_chain.else_body->0));
            }
            self.visit_block(else_body);
        }
    }

    fn visit_import(&mut self, imp: &ImportStmt)
        ensures
            final(self).state() == visit_import(old(self).state(), *imp, old(self).modules()),
            final(self).handler() == old(self).handler(),
            final(self).modules() == old(self).modules(),
    {
        if same_text(imp.module_name.as_str(), "std") {
            if imp.is_from {
                self.set_var_type("class", "object");
                self.set_var_type("console", "object");
                self.set_var_type("math", "object");
                self.set_var_type("system", "object");
                self.set_var_type("hardware", "object");
                self.set_var_type("UI", "object");
                self.set_var_type("string", "object");
                self.set_var_type("int", "object");
                self.set_var_type("float", "object");
                self.set_var_type("bool", "object");
                self.set_var_type("array", "object");
                self.set_var_type("buffer", "object");
                self.set_var_type("tensor", "object");
                self.set_var_type("signal", "object");
                self.set_var_type("task", "object");
                self.set_var_type("alloc", "func");
                self.set_var_type("spawn", "func");
                self.set_var_type("vec2", "struct");
                self.set_var_type("vec3", "struct");
                self.set_var_type("vec4", "struct");
                self.set_var_type("mat2", "struct");
                self.set_var_type("mat3", "struct");
                self.set_var_type("mat4", "struct");
                self.set_var_type("print", "func");
            } else {
                self.set_var_type("std", "object");
            }
        } else {
            match self.find_module(imp.module_name.as_str()) {
                Some(k) => self.take_exports(imp, k),
                None => {},
            }
        }
    }

    /// Index of the first module provided under `name`.
    fn find_module(&self, name: &str) -> (r: Option<usize>)
        ensures
            r matches Some(k) ==> k < self.modules@.len() && module_program(self.modules(), name@) == Some(self.modules@[k as int].1),
            r is None ==> module_program(self.modules(), name@) is None,
    {
        let mut k: usize = 0;
        assert(self.modules@.skip(0) == self.modules@);
        while k < self.modules.len()
            invariant
                k <= self.modules@.len(),
                module_program(self.modules(), name@) == module_program(self.modules@.skip(k as int), name@),
            decreases self.modules@.len() - k,
        {
            assert(self.modules@.skip(k as int)[0] == self.modules@[k as int]);
            assert(self.modules@.skip(k as int).drop_first() == self.modules@.skip(k + 1));
            if same_text(self.modules[k].0.as_str(), name) {
                return Some(k);
            }
            k = k + 1;
        }
        None
    }

    /// Declares what `imp` takes from module `k`.
    fn take_exports(&mut self, imp: &ImportStmt, k: usize)
        requires
            k < old(self).modules@.len(),
        ensures
            final(self).state() == with_scopes(old(self).state(), take_exports(old(self).state().scopes, *imp, old(self).modules@[k as int].1.nodes@)),
            final(self).handler() == old(self).handler(),
            final(self).modules() == old(self).modules(),
    {
        let n = self.modules[k].1.nodes.len();
        let ghost ns = self.modules@[k as int].1.nodes@;
        let mut i: usize = 0;
        assert(ns.skip(0) == ns);
        while i < n
            invariant
                i <= n,
                n == ns.len(),
                k < self.modules@.len(),
                ns == self.modules@[k as int].1.nodes@,
                take_exports(old(self).state().scopes, *imp, ns) == take_exports(self.state().scopes, *imp, ns.skip(i as int)),
                self.state().errors == old(self).state().errors,
                self.handler() == old(self).handler(),
                self.modules() == old(self).modules(),
            decreases n - i,
        {
            assert(ns.skip(i as int)[0] == ns[i as int]);
            assert(ns.skip(i as int).drop_first() == ns.skip(i + 1));
            let mut decl: Option<(String, String)> = None;
            if let Node::Variable(var) = &self.modules[k].1.nodes[i] {
                if var.is_export && imp.is_from && imports_name(imp, var.name.as_str()) {
                    let ty = type_expr_to_string(&var.type_expr);
                    decl = Some((var.name.clone(), ty));
                }
            }
            if let Some((name, ty)) = decl {
                self.set_var_type(name.as_str(), ty.as_str());
            }
            i = i + 1;
        }
        assert(ns.skip(n as int).len() == 0);
    }

    fn type_expr_to_string(&self, expr: &TypeExpr) -> (s: String)
        ensures
            s@ == type_string(*expr),
    {
        type_expr_to_string(expr)
    }

    fn visit_variable(&mut self, var: &Variable)
        ensures
            final(self).state() == visit_variable(old(self).state(), *var, old(self).modules()),
            final(self).handler() == old(self).handler(),
            final(self).modules() == old(self).modules(),
        decreases var, 2nat,
    {
        let declared_ty = self.type_expr_to_string(&var.type_expr);
        self.set_var_type(var.name.as_str(), declared_ty.as_str());
        let d = declared_ty.as_str();

        if let Some(val_expr) = &var.value {
            let val_ty = self.get_type_of_expr(val_expr);
            if !self.is_compatible(d, val_ty.as_str()) {
                let e = VenusError {
                    title: owned("Type Mismatch"),
                    message: msg5("Ви намагаєтесь записати '", val_ty.as_str(), "' у змінну типу '", d, "'."),
                    hint: Some(msg5("Змініть тип змінної '", var.name.as_str(), "' на '", val_ty.as_str(), "', або передайте правильне значення.")),
                    span: val_expr.span(),
                };
                self.push_error(e);
            }
        }

        if var.content.len() > 0 {
            self.enter_scope();
            if let Some(args) = &var.arguments {
                self.declare_typed_args(&args.args);
            }
            if !same_text(d, "enum") {
                // an enum's content lists its members, not expressions to check
                proof {
                    assert(decreases_to!(var => var.content));
                }
                self.visit_all(&var.content);
            }
            self.exit_scope();
        }
    }

    fn declare_typed_args(&mut self, args: &Vec<Arg>)
        ensures
            final(self).state() == with_scopes(old(self).state(), declare_args(old(self).state().scopes, args@)),
            final(self).handler() == old(self).handler(),
            final(self).modules() == old(self).modules(),
    {
        let mut i: usize = 0;
        assert(args@.skip(0) == args@);
        while i < args.len()
            invariant
                i <= args@.len(),
                declare_args(old(self).state().scopes, args@) == declare_args(self.state().scopes, args@.skip(i as int)),
                self.state().errors == old(self).state().errors,
                self.handler() == old(self).handler(),
                self.modules() == old(self).modules(),
            decreases args@.len() - i,
        {
            proof {
                assert(args@.skip(i as int)[0] == args@[i as int]);
                assert(args@.skip(i as int).drop_first() == args@.skip(i + 1));
            }
            if let Arg::Typed { ty, name, .. } = &args[i] {
                let arg_ty = self.type_expr_to_string(ty);
                self.set_var_type(name.as_str(), arg_ty.as_str());
            }
            i = i + 1;
        }
        assert(args@.skip(args@.len() as int).len() == 0);
    }

    fn visit_assignment(&mut self, assign: &Assignment)
        ensures
            final(self).state() == visit_assignment(old(self).state(), *assign),
            final(self).handler() == old(self).handler(),
            final(self).modules() == old(self).modules(),
    {
        let ghost st0 = self.state();
        let target_ty = self.get_type_of_expr(&assign.target);
        let val_ty = self.get_type_of_expr(&assign.value);
        proof {
            let (tt, te) = type_of(st0.scopes, assign.target);
            let (vt, ve) = type_of(st0.scopes, assign.value);
            assert(self.state().errors =~= st0.errors + (te + ve));
        }

        if !self.is_compatible(target_ty.as_str(), val_ty.as_str()) {
            let e = VenusError {
                title: owned("Invalid Assignment"),
                message: msg5("Неможливо записати значення типу '", val_ty.as_str(), "' у ціль типу '", target_ty.as_str(), "'."),
                hint: Some(owned("Перевірте типи даних.")),
                span: assign.value.span(),
            };
            self.push_error(e);
        }
    }

    fn is_compatible(&self, expected: &str, actual: &str) -> (b: bool)
        ensures
            b == compatible(expected@, actual@),
    {
        if same_text(expected, "unknown") || same_text(actual, "unknown") {
            return true;
        }  // Fallback to avoid cascading errors
        if same_text(actual, "array[unknown]") && is_array(expected) {
            return true;
        }
        if same_text(expected, "array") && is_array(actual) {
            return true;
        }
        if same_text(expected, actual) {
            return true;
        }
        // Strict typing: no implicit conversions.
        false
    }

    fn get_type_of_expr(&mut self, expr: &Expr) -> (t: String)
        ensures
            t@ == type_of(old(self).state().scopes, *expr).0,
            final(self).state() == add_errors(old(self).state(), type_of(old(self).state().scopes, *expr).1),
            final(self).handler() == old(self).handler(),
            final(self).modules() == old(self).modules(),
        decreases expr,
    {
        match expr {
            Expr::IntLiteral(..) => owned("int"),
            Expr::FloatLiteral(..) => owned("float"),
            Expr::StringLiteral(..) => owned("string"),
            Expr::BoolLiteral(..) => owned("bool"),
            Expr::ArrayLiteral(items, _) => {
                if items.len() == 0 {
                    assert(self.state().errors + seq![] =~= self.state().errors);
                    return owned("array[unknown]");
                }
                proof {
                    assert(decreases_to!(expr => items@[0]));
                }
                let first_ty = self.get_type_of_expr(&items[0]);
                msg3("array[", first_ty.as_str(), "]")
            },
            Expr::Identifier(name, span) => {
                match self.scopes.get_var_type(name.as_str()) {
                    Some(ty) => {
                        assert(self.state().errors + seq![] =~= self.state().errors);
                        ty
                    },
                    None => {
                        let n = name.as_str();
                        let e = VenusError {
                            title: owned("Undefined Variable"),
                            message: msg3("Змінна '", n, "' не знайдена у цій області видимості."),
                            hint: Some(owned("Переконайтеся, що ви ініціалізували змінну перед використанням.")),
                            span: *span,
                        };
                        self.push_error(e);
                        owned("unknown")
                    },
                }
            },
            Expr::BinaryOp { left, op, right, .. } => {
                let ghost st0 = self.state();
                let left_ty = self.get_type_of_expr(left);
                let right_ty = self.get_type_of_expr(right);
                let span = expr.span();
                let t = self.resolve_binary_op(left_ty.as_str(), right_ty.as_str(), op, &span);
                proof {
                    let (lt, le) = type_of(st0.scopes, **left);
                    let (rt, re) = type_of(st0.scopes, **right);
                    let (bt, be) = binary_type(lt, rt, *op, expr.spec_span());
                    assert(self.state().errors =~= st0.errors + (le + re + be));
                }
                t
            },
            Expr::MemberAccess { object, member, .. } => {
                let _obj_ty = self.get_type_of_expr(object);
                // Members are not looked up in declarations: only a few are known.
                if same_text(member.as_str(), "len") {
                    return owned("int");
                }
                if same_text(member.as_str(), "to_string") {
                    return owned("string");
                }
                owned("unknown")
            },
            Expr::Call { callee, args, .. } => {
                let ghost st0 = self.state();
                let callee_ty = self.get_type_of_expr(callee);
                proof {
                    assert(decreases_to!(expr => args));
                }
                self.type_args(args);
                proof {
                    let (ct, ce) = type_of(st0.scopes, **callee);
                    assert(self.state().errors =~= st0.errors + (ce + args_errors(st0.scopes, args@)));
                }
                if let Expr::Identifier(name, _) = &**callee {
                    let n = name.as_str();
                    if same_text(n, "alloc") {
                        return owned("buffer");
                    }
                    if same_text(n, "spawn") {
                        return owned("task");
                    }
                    if same_text(n, "tensor") {
                        return owned("tensor");
                    }
                    if same_text(n, "signal") {
                        return owned("signal");
                    }
                }
                if same_text(callee_ty.as_str(), "func") {
                    owned("unknown")
                } else {
                    callee_ty
                }
            },
            Expr::IndexAccess { object, index, .. } => {
                let ghost st0 = self.state();
                let obj_ty = self.get_type_of_expr(object);
                self.get_type_of_expr(index);
                proof {
                    let (ot, oe) = type_of(st0.scopes, **object);
                    let (it, ie) = type_of(st0.scopes, **index);
                    assert(self.state().errors =~= st0.errors + (oe + ie));
                }
                if is_array(obj_ty.as_str()) {
                    element_type(obj_ty.as_str())
                } else {
                    owned("unknown")
                }
            },
            Expr::UnaryOp { .. } => {
                assert(self.state().errors + seq![] =~= self.state().errors);
                owned("unknown")
            },
        }
    }

    /// Analyzes each call argument in turn.
    fn type_args(&mut self, args: &Vec<Expr>)
        ensures
            final(self).state() == add_errors(old(self).state(), args_errors(old(self).state().scopes, args@)),
            final(self).handler() == old(self).handler(),
            final(self).modules() == old(self).modules(),
        decreases args,
    {
        let mut i: usize = 0;
        assert(args@.skip(0) == args@);
        while i < args.len()
            invariant
                i <= args@.len(),
                self.state().scopes == old(self).state().scopes,
                old(self).state().errors + args_errors(old(self).state().scopes, args@)
                    == self.state().errors + args_errors(old(self).state().scopes, args@.skip(i as int)),
                self.handler() == old(self).handler(),
                self.modules() == old(self).modules(),
            decreases args@.len() - i,
        {
            proof {
                assert(decreases_to!(args => args@[i as int]));
                assert(args@.skip(i as int)[0] == args@[i as int]);
                assert(args@.skip(i as int).drop_first() == args@.skip(i + 1));
            }
            let ghost e0 = self.state().errors;
            self.get_type_of_expr(&args[i]);
            proof {
                let sc = old(self).state().scopes;
                assert(e0 + args_errors(sc, args@.skip(i as int)) =~= (e0 + type_of(sc, args@[i as int]).1)
                    + args_errors(sc, args@.skip(i + 1)));
            }
            i = i + 1;
        }
        proof {
            assert(args@.skip(args@.len() as int).len() == 0);
            assert(self.state().errors + seq![] =~= self.state().errors);
        }
    }

    fn resolve_binary_op(&mut self, left_ty: &str, right_ty: &str, op: &BinOp, span: &Span) -> (t: String)
        ensures
            t@ == binary_type(left_ty@, right_ty@, *op, *span).0,
            final(self).state() == add_errors(old(self).state(), binary_type(left_ty@, right_ty@, *op, *span).1),
            final(self).handler() == old(self).handler(),
            final(self).modules() == old(self).modules(),
    {
        if same_text(left_ty, "unknown") || same_text(right_ty, "unknown") {
            assert(self.state().errors + seq![] =~= self.state().errors);
            return owned("unknown");
        }
        match op {
            BinOp::Add | BinOp::Sub | BinOp::Mul | BinOp::Div | BinOp::Mod => {
                match arithmetic_result(left_ty, right_ty, op) {
                    Some(t) => {
                        assert(self.state().errors + seq![] =~= self.state().errors);
                        t
                    },
                    None => {
                        let e = VenusError {
                            title: owned("Invalid Math Operation"),
                            message: msg5("Неможливо виконати операцію над несумісними типами: '", left_ty, "' та '", right_ty, "'."),
                            hint: Some(owned("Використовуйте сумісні типи для математики.")),
                            span: *span,
                        };
                        self.push_error(e);
                        owned("unknown")
                    },
                }
            },
            _ => {
                assert(self.state().errors + seq![] =~= self.state().errors);
                owned("bool")
            },
        }
    }
}

/// Reads a module's source: scans and parses it; `None` when it does not
/// scan or parse (or is too long to scan).
pub fn load_module(source: &str) -> (r: Option<Program>)
    ensures
        !scannable(source@) ==> r is None,
        scannable(source@) ==> match scan_run(source@, start_state(), seq![]) {
            Err(_) => r is None,
            Ok(vs) => exists|ts: Seq<Token>| tokens_view(ts) == vs && match program_at(ts, 0, seq![]) {
                Ok((ns, _)) => r matches Some(p) && nodes_view(p.nodes@) == ns,
                Err(_) => r is None,
            },
        },
{
    if !can_scan(source) {
        return None;
    }
    let mut scanner = Scanner::new(source);
    match scanner.scan_all() {
        Ok(tokens) => {
            let mut parser = Parser::new(tokens);
            match parser.parse() {
                Ok(program) => Some(program),
                Err(_) => None,
            }
        },
        Err(_) => None,
    }
}

/// The names of the modules other than `std` that the import statements in
/// `nodes` (at any depth) name, in order of appearance.
pub open spec fn imports_in(ns: Seq<Node>) -> Seq<Seq<char>>
    decreases ns, 1nat,
{
    if ns.len() == 0 {
        seq![]
    } else {
        imports_in_node(ns[0]) + imports_in(ns.drop_first())
    }
}

pub open spec fn imports_in_node(n: Node) -> Seq<Seq<char>>
    decreases n, 2nat,
{
    match n {
        Node::Import(i) => if i.module_name@ == "std"@ { seq![] } else { seq![i.module_name@] },
        Node::Variable(v) => imports_in(v.content@),
        Node::ForLoop(f) => imports_in(f.body@),
        Node::WhileLoop(w) => imports_in(w.body@),
        Node::IfChain(i) => imports_in(i.then_body@) + imports_in_branches(i.elif_branches@) + match i.else_body {
            Some(b) => imports_in(b@),
            None => seq![],
        },
        _ => seq![],
    }
}

pub open spec fn imports_in_branches(bs: Seq<(Expr, Vec<Node>)>) -> Seq<Seq<char>>
    decreases bs, 2nat,
{
    if bs.len() == 0 {
        seq![]
    } else {
        imports_in(bs[0].1@) + imports_in_branches(bs.drop_first())
    }
}

/// The modules other than `std` that a program imports, at any depth, in
/// order of appearance: the files a caller should read and hand to
/// `add_module` before analysis.
pub fn imported_modules(program: &Program) -> (r: Vec<String>)
    ensures
        r@.map_values(|s: String| s@) == imports_in(program.nodes@),
{
    let mut out: Vec<String> = Vec::new();
    collect_imports(&program.nodes, &mut out);
    assert(out@.map_values(|s: String| s@) =~= seq![] + imports_in(program.nodes@));
    out
}

fn collect_imports(nodes: &Vec<Node>, out: &mut Vec<String>)
    ensures
        final(out)@.map_values(|s: String| s@) == old(out)@.map_values(|s: String| s@) + imports_in(nodes@),
    decreases nodes, 1nat,
{
    let mut i: usize = 0;
    assert(nodes@.skip(0) == nodes@);
    while i < nodes.len()
        invariant
            i <= nodes@.len(),
            old(out)@.map_values(|s: String| s@) + imports_in(nodes@) == out@.map_values(|s: String| s@) + imports_in(nodes@.skip(i as int)),
        decreases nodes@.len() - i,
    {
        proof {
            assert(decreases_to!(nodes => nodes@[i as int]));
            assert(nodes@.skip(i as int)[0] == nodes@[i as int]);
            assert(nodes@.skip(i as int).drop_first() == nodes@.skip(i + 1));
        }
        let ghost before = out@.map_values(|s: String| s@);
        collect_node_imports(&nodes[i], out);
        proof {
            let rest = nodes@.skip(i as int);
            assert(imports_in(rest) == imports_in_node(nodes@[i as int]) + imports_in(nodes@.skip(i + 1)));
            assert(before + imports_in(rest) =~= (before + imports_in_node(nodes@[i as int])) + imports_in(nodes@.skip(i + 1)));
        }
        i = i + 1;
    }
    assert(nodes@.skip(nodes@.len() as int).len() == 0);
    assert(out@.map_values(|s: String| s@) + seq![] =~= out@.map_values(|s: String| s@));
}

fn collect_node_imports(node: &Node, out: &mut Vec<String>)
    ensures
        final(out)@.map_values(|s: String| s@) == old(out)@.map_values(|s: String| s@) + imports_in_node(*node),
    decreases node, 2nat,
{
    let ghost v0 = out@.map_values(|s: String| s@);
    match node {
        Node::Import(i) => {
            if !same_text(i.module_name.as_str(), "std") {
                out.push(i.module_name.clone());
                assert(out@.map_values(|s: String| s@) =~= v0 + seq![i.module_name@]);
            } else {
                assert(out@.map_values(|s: String| s@) =~= v0 + seq![]);
            }
        },
        Node::Variable(v) => {
            proof {
                assert(decreases_to!(node => v.content));
            }
            collect_imports(&v.content, out);
        },
        Node::ForLoop(f) => {
            proof {
                assert(decreases_to!(node => f.body));
            }
            collect_imports(&f.body, out);
        },
        Node::WhileLoop(w) => {
            proof {
                assert(decreases_to!(node => w.body));
            }
            collect_imports(&w.body, out);
        },
        Node::IfChain(ic) => {
            collect_if_imports(ic, out);
        },
        _ => {
            assert(out@.map_values(|s: String| s@) =~= v0 + seq![]);
        },
    }
}


fn collect_if_imports(ic: &IfChain, out: &mut Vec<String>)
    ensures
        final(out)@.map_values(|s: String| s@) == old(out)@.map_values(|s: String| s@)
            + imports_in_node(Node::IfChain(*ic)),
    decreases ic, 2nat,
{
    let ghost v0 = out@.map_values(|s: String| s@);
    proof {
        assert(decreases_to!(ic => ic.then_body));
    }
    collect_imports(&ic.then_body, out);
    let ghost v1 = out@.map_values(|s: String| s@);
    let mut k: usize = 0;
    let ghost bs = ic.elif_branches@;
    assert(bs.skip(0) == bs);
    while k < ic.elif_branches.len()
        invariant
            k <= bs.len(),
            bs == ic.elif_branches@,
            v1 + imports_in_branches(bs) == out@.map_values(|s: String| s@) + imports_in_branches(bs.skip(k as int)),
        decreases bs.len() - k,
    {
        proof {
            assert(decreases_to!(ic => ic.elif_branches@[k as int].1));
            assert(bs.skip(k as int)[0] == bs[k as int]);
            assert(bs.skip(k as int).drop_first() == bs.skip(k + 1));
        }
        let ghost before = out@.map_values(|s: String| s@);
        collect_imports(&ic.elif_branches[k].1, out);
        proof {
            assert(before + imports_in_branches(bs.skip(k as int)) =~= (before + imports_in(bs[k as int].1@)) + imports_in_branches(bs.skip(k + 1)));
        }
        k = k + 1;
    }
    assert(bs.skip(bs.len() as int).len() == 0);
    let ghost v2 = out@.map_values(|s: String| s@);
    if let Some(b) = &ic.else_body {
        proof {
            assert(decreases_to!(ic => ic.else_body->0));
        }
        collect_imports(b, out);
    }
    proof {
        let tail = if ic.else_body is Some { imports_in(ic.else_body->0@) } else { seq![] };
        assert(out@.map_values(|s: String| s@) =~= v2 + tail);
        assert(v2 =~= v1 + imports_in_branches(bs));
        assert(out@.map_values(|s: String| s@) =~= v0 + (imports_in(ic.then_body@) + imports_in_branches(bs) + tail));
    }
}
/// The spelling of a type expression.
pub fn type_expr_to_string(expr: &TypeExpr) -> (s: String)
    ensures
        s@ == type_string(*expr),
    decreases expr,
{
    match expr {
        TypeExpr::Named(n) => n.clone(),
        TypeExpr::Array(inner) => msg3("array[", type_expr_to_string(inner).as_str(), "]"),
    }
}

/// Whether `imp` imports `name`, by name or with `*`.
fn imports_name(imp: &ImportStmt, name: &str) -> (b: bool)
    ensures
        b == imports_item(*imp, name@),
{
    let mut i: usize = 0;
    while i < imp.items.len()
        invariant
            i <= imp.items@.len(),
            forall|j: int| 0 <= j < i ==> !(imp.items@[j]@ == "*"@ || imp.items@[j]@ == name@),
        decreases imp.items@.len() - i,
    {
        if same_text(imp.items[i].as_str(), "*") || same_text(imp.items[i].as_str(), name) {
            return true;
        }
        i = i + 1;
    }
    false
}

/// `arithmetic_type`, computed.
fn arithmetic_result(l: &str, r: &str, op: &BinOp) -> (t: Option<String>)
    ensures
        t matches Some(s) ==> arithmetic_type(l@, r@, *op) == Some(s@),
        t is None ==> arithmetic_type(l@, r@, *op) is None,
{
    let l_int = same_text(l, "int");
    let l_float = same_text(l, "float");
    let r_int = same_text(r, "int");
    let r_float = same_text(r, "float");
    let l_vec = crate::text::str_starts_with(l, "vec");
    let same = same_text(l, r);
    if l_int && r_int {
        return Some(owned("int"));
    }
    if l_float && r_float {
        return Some(owned("float"));
    }
    if same_text(l, "string") && same_text(r, "string") && matches!(op, BinOp::Add) {
        return Some(owned("string"));
    }
    // Vectors
    if l_vec && same {
        return Some(owned(l));
    }
    if l_vec && (r_float || r_int) {
        return Some(owned(l));
    }
    None
}

} // verus!
