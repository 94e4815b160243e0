//! The compiler's semantic analyzer: walks the tree with a stack of scopes,
//! gives every expression a type name, and collects an error for each
//! undefined name, incompatible assignment and impossible arithmetic.
//! Typing is strict: no implicit conversion between scalar types.

use vstd::prelude::*;
use crate::lexer::token::Span;
use crate::parser::ast::{Program, Node, Variable, Assignment, Expr, BinOp, TypeExpr, Arg, ArgList};
use crate::analyzer::error::{VenusError, VenusErrorHandler, ErrorView, errors_view};
use crate::analyzer::scopes::{Scopes, FrameView, lookup, set_var, enter, exit};
use crate::analyzer::typing::{element_of, is_array_type, element_type, is_array, same_text, msg3, msg5};
use crate::text::{owned, concat};

verus! {

broadcast use vstd::string::group_string_axioms;

/// What the analyzer knows: its scopes and the errors found so far.
pub struct AnalysisState {
    pub scopes: Seq<FrameView>,
    pub errors: Seq<ErrorView>,
}

/// The spelling of a type expression: `int`, `array[int]`, `array[array[int]]`.
pub open spec fn type_string(t: TypeExpr) -> Seq<char>
    decreases t,
{
    match t {
        TypeExpr::Named(n) => n@,
        TypeExpr::Array(inner) => "array["@ + type_string(*inner) + "]"@,
    }
}

/// Whether a value of type `actual` may be stored where `expected` is
/// declared: `unknown` on either side (so that one error does not cascade),
/// an empty array into any array type, any array type where a plain `array`
/// is declared, or the very same type. No other conversion is implicit.
pub open spec fn compatible(expected: Seq<char>, actual: Seq<char>) -> bool {
    ||| expected == "unknown"@
    ||| actual == "unknown"@
    ||| (actual == "array[unknown]"@ && is_array_type(expected))
    ||| (expected == "array"@ && is_array_type(actual))
    ||| expected == actual
}

pub open spec fn is_arithmetic(op: BinOp) -> bool {
    op is Add || op is Sub || op is Mul || op is Div || op is Mod
}

/// The result type of arithmetic on `l` and `r`, when it is allowed: numbers
/// of one kind (int with int, float with float; mixing them is no
/// implicit conversion), string `+` string, vectors
/// and matrices with themselves or scalars (matrices also with vectors),
/// tensors with tensors or scalars.
pub open spec fn arithmetic_type(l: Seq<char>, r: Seq<char>, op: BinOp) -> Option<Seq<char>> {
    let int_t = "int"@;
    let float_t = "float"@;
    if l == int_t && r == int_t {
        Some(int_t)
    } else if l == float_t && r == float_t {
        Some(float_t)
    } else if l == "string"@ && r == "string"@ && op is Add {
        Some("string"@)
    } else if "vec"@.is_prefix_of(l) && l == r {
        Some(l)
    } else if "vec"@.is_prefix_of(l) && (r == float_t || r == int_t) {
        Some(l)
    } else if "mat"@.is_prefix_of(l) && l == r {
        Some(l)
    } else if "mat"@.is_prefix_of(l) && (r == float_t || r == int_t || "vec"@.is_prefix_of(r)) {
        Some(l)
    } else if l == "tensor"@ && r == "tensor"@ {
        Some("tensor"@)
    } else if l == "tensor"@ && (r == float_t || r == int_t) {
        Some("tensor"@)
    } else {
        None
    }
}

pub open spec fn undefined_error(name: Seq<char>, span: Span) -> ErrorView {
    ErrorView {
        title: "Undefined Variable"@,
        message: "Змінна '"@ + name + "' не знайдена у цій області видимості."@,
        hint: Some("Переконайтеся, що ви ініціалізували змінну перед використанням."@),
        span,
    }
}

pub open spec fn math_error(l: Seq<char>, r: Seq<char>, span: Span) -> ErrorView {
    ErrorView {
        title: "Invalid Math Operation"@,
        message: "Неможливо виконати операцію над несумісними типами: '"@ + l + "' та '"@ + r + "'."@,
        hint: Some("Спробуйте використати явне перетворення або broadcasting (наприклад '"@ + l
            + " * float')."@),
        span,
    }
}

pub open spec fn mismatch_error(name: Seq<char>, declared: Seq<char>, actual: Seq<char>, span: Span) -> ErrorView {
    ErrorView {
        title: "Type Mismatch"@,
        message: "Ви намагаєтесь записати '"@ + actual + "' у змінну типу '"@ + declared + "'."@,
        hint: Some("Змініть тип змінної '"@ + name + "' на '"@ + actual
            + "', або передайте правильне значення."@),
        span,
    }
}

pub open spec fn assignment_error(target: Seq<char>, actual: Seq<char>, span: Span) -> ErrorView {
    ErrorView {
        title: "Invalid Assignment"@,
        message: "Неможливо записати значення типу '"@ + actual + "' у ціль типу '"@ + target + "'."@,
        hint: Some("Перевірте типи даних."@),
        span,
    }
}

/// The type of a binary operation on operands of types `l` and `r`, and the
/// error it raises: anything involving `unknown` is `unknown`; comparisons and
/// logic are `bool`; arithmetic follows `arithmetic_type`, or is an error.
pub open spec fn binary_type(l: Seq<char>, r: Seq<char>, op: BinOp, span: Span) -> (Seq<char>, Seq<ErrorView>) {
    if l == "unknown"@ || r == "unknown"@ {
        ("unknown"@, seq![])
    } else if is_arithmetic(op) {
        match arithmetic_type(l, r, op) {
            Some(t) => (t, seq![]),
            None => ("unknown"@, seq![math_error(l, r, span)]),
        }
    } else {
        ("bool"@, seq![])
    }
}

/// Names that stand for themselves as types when no scope defines them.
pub open spec fn builtin_name(name: Seq<char>) -> bool {
    name == "vec2"@ || name == "vec3"@ || name == "vec4"@ || name == "print"@ || name == "log"@
}

/// The type a call to a built-in constructor gives.
pub open spec fn constructor_type(name: Seq<char>) -> Option<Seq<char>> {
    if name == "alloc"@ {
        Some("buffer"@)
    } else if name == "spawn"@ {
        Some("task"@)
    } else if name == "tensor"@ {
        Some("tensor"@)
    } else if name == "signal"@ {
        Some("signal"@)
    } else {
        None
    }
}

/// The type of an expression under the scopes `sc`, and the errors its
/// analysis raises, in order.
pub open spec fn type_of(sc: Seq<FrameView>, e: Expr) -> (Seq<char>, Seq<ErrorView>)
    decreases e,
{
    match e {
        Expr::IntLiteral(..) => ("int"@, seq![]),
        Expr::FloatLiteral(..) => ("float"@, seq![]),
        Expr::StringLiteral(..) => ("string"@, seq![]),
        Expr::BoolLiteral(..) => ("bool"@, seq![]),
        Expr::ArrayLiteral(items, _) => {
            if items@.len() == 0 {
                ("array[unknown]"@, seq![])
            } else {
                let (t, errs) = type_of(sc, items@[0]);
                ("array["@ + t + "]"@, errs)
            }
        },
        Expr::Identifier(name, span) => match lookup(sc, name@) {
            Some(t) => (t, seq![]),
            None => if builtin_name(name@) {
                (name@, seq![])
            } else {
                ("unknown"@, seq![undefined_error(name@, span)])
            },
        },
        Expr::BinaryOp { left, op, right, .. } => {
            let (lt, le) = type_of(sc, *left);
            let (rt, re) = type_of(sc, *right);
            let (t, oe) = binary_type(lt, rt, op, e.spec_span());
            (t, le + re + oe)
        },
        Expr::MemberAccess { object, member, .. } => {
            let (_, errs) = type_of(sc, *object);
            if member@ == "len"@ {
                ("int"@, errs)
            } else if member@ == "to_string"@ {
                ("string"@, errs)
            } else {
                ("unknown"@, errs)
            }
        },
        Expr::Call { callee, args, .. } => {
            let (ct, ce) = type_of(sc, *callee);
            let errs = ce + args_errors(sc, args@);
            let special = match *callee {
                Expr::Identifier(name, _) => constructor_type(name@),
                _ => None,
            };
            match special {
                Some(t) => (t, errs),
                None => if ct == "func"@ {
                    ("unknown"@, errs)
                } else {
                    (ct, errs)
                },
            }
        },
        Expr::IndexAccess { object, index, .. } => {
            let (ot, oe) = type_of(sc, *object);
            let (_, ie) = type_of(sc, *index);
            if is_array_type(ot) {
                (element_of(ot), oe + ie)
            } else {
                ("unknown"@, oe + ie)
            }
        },
        Expr::UnaryOp { .. } => ("unknown"@, seq![]),
    }
}

/// The errors raised by analyzing each of `args` in turn.
pub open spec fn args_errors(sc: Seq<FrameView>, args: Seq<Expr>) -> Seq<ErrorView>
    decreases args,
{
    if args.len() == 0 {
        seq![]
    } else {
        type_of(sc, args[0]).1 + args_errors(sc, args.drop_first())
    }
}

/// The control-flow types, whose content is checked in a scope of its own
/// and which declare nothing beyond their own name.
pub open spec fn is_control(t: Seq<char>) -> bool {
    t == "if"@ || t == "for"@ || t == "while"@ || t == "return"@ || t == "import"@
}

pub open spec fn add_errors(st: AnalysisState, errs: Seq<ErrorView>) -> AnalysisState {
    AnalysisState { scopes: st.scopes, errors: st.errors + errs }
}

pub open spec fn with_scopes(st: AnalysisState, sc: Seq<FrameView>) -> AnalysisState {
    AnalysisState { scopes: sc, errors: st.errors }
}

/// Analysis of a node.
pub open spec fn visit_node(st: AnalysisState, n: Node) -> AnalysisState
    decreases n,
{
    match n {
        Node::Variable(v) => visit_variable(st, v),
        Node::Assignment(a) => visit_assignment(st, a),
        Node::ExprStmt(e) => add_errors(st, type_of(st.scopes, e).1),
    }
}

/// Analysis of nodes in turn.
pub open spec fn visit_nodes(st: AnalysisState, ns: Seq<Node>) -> AnalysisState
    decreases ns,
{
    if ns.len() == 0 {
        st
    } else {
        visit_nodes(visit_node(st, ns[0]), ns.drop_first())
    }
}

pub open spec fn visit_assignment(st: AnalysisState, a: Assignment) -> AnalysisState {
    let (tt, te) = type_of(st.scopes, a.target);
    let (vt, ve) = type_of(st.scopes, a.value);
    let st1 = add_errors(st, te + ve);
    if compatible(tt, vt) {
        st1
    } else {
        add_errors(st1, seq![assignment_error(tt, vt, a.value.spec_span())])
    }
}

/// A `for(x in xs)` header declares `x` with the element type of `xs`.
pub open spec fn for_header(st: AnalysisState, args: Option<ArgList>) -> AnalysisState {
    match args {
        Some(list) => if list.args@.len() > 0 {
            match list.args@[0] {
                Arg::Positional(Expr::BinaryOp { left, op: BinOp::In, right, .. }) => match *left {
                    Expr::Identifier(item, _) => {
                        let (rt, re) = type_of(st.scopes, *right);
                        let item_ty = if is_array_type(rt) { element_of(rt) } else { "unknown"@ };
                        let st1 = add_errors(st, re);
                        with_scopes(st1, set_var(st1.scopes, item@, item_ty))
                    },
                    _ => st,
                },
                _ => st,
            }
        } else {
            st
        },
        None => st,
    }
}

/// Typed arguments declare their names in the current scope.
pub open spec fn declare_args(sc: Seq<FrameView>, args: Seq<Arg>) -> Seq<FrameView>
    decreases args.len(),
{
    if args.len() == 0 {
        sc
    } else {
        let sc1 = match args[0] {
            Arg::Typed { ty, name, .. } => set_var(sc, name@, type_string(ty)),
            _ => sc,
        };
        declare_args(sc1, args.drop_first())
    }
}

/// The value written with `:` in a declaration: the expression held by the
/// anonymous variable that opens its content.
pub open spec fn declared_value(v: Variable) -> Option<Expr> {
    if v.content@.len() > 0 {
        match v.content@[0] {
            Node::Variable(anon) => if anon.name is None && anon.content@.len() > 0 {
                match anon.content@[0] {
                    Node::ExprStmt(e) => Some(e),
                    _ => None,
                }
            } else {
                None
            },
            _ => None,
        }
    } else {
        None
    }
}

/// Analysis of a declaration: its name gets its declared type; a control
/// construct checks its content in a scope of its own (a `for` header first
/// declares its loop variable); any other declaration checks the value written
/// with `:` against its type, then (unless it is an `enum`) its content in a
/// scope where its typed arguments are declared.
pub open spec fn visit_variable(st: AnalysisState, v: Variable) -> AnalysisState
    decreases v,
{
    let declared = type_string(v.type_expr);
    let st1 = match v.name {
        Some(name) => with_scopes(st, set_var(st.scopes, name@, declared)),
        None => st,
    };
    if is_control(declared) {
        if v.content@.len() == 0 {
            st1
        } else {
            let st2 = with_scopes(st1, enter(st1.scopes));
            let st3 = if declared == "for"@ { for_header(st2, v.arguments) } else { st2 };
            let st4 = visit_nodes(st3, v.content@);
            with_scopes(st4, exit(st4.scopes))
        }
    } else {
        let st2 = match declared_value(v) {
            Some(e) => {
                let (vt, ve) = type_of(st1.scopes, e);
                let st_a = add_errors(st1, ve);
                if compatible(declared, vt) {
                    st_a
                } else {
                    let name = match v.name {
                        Some(n) => n@,
                        None => "<anonymous>"@,
                    };
                    add_errors(st_a, seq![mismatch_error(name, declared, vt, e.spec_span())])
                }
            },
            None => st1,
        };
        if v.content@.len() == 0 {
            st2
        } else {
            let sc = enter(st2.scopes);
            let sc = match v.arguments {
                Some(list) => declare_args(sc, list.args@),
                None => sc,
            };
            let st3 = with_scopes(st2, sc);
            let st4 = if declared == "enum"@ { st3 } else { visit_nodes(st3, v.content@) };
            with_scopes(st4, exit(st4.scopes))
        }
    }
}

// ── Laws ──

/// What a step of analysis keeps: the scope stack is as deep as before, every
/// frame but the innermost is untouched, and the errors found before are still
/// there, in front.
pub open spec fn keeps(st: AnalysisState, next: AnalysisState) -> bool {
    &&& next.scopes.len() == st.scopes.len()
    &&& forall|i: int| 0 <= i < st.scopes.len() - 1 ==> #[trigger] next.scopes[i] == st.scopes[i]
    &&& st.errors.is_prefix_of(next.errors)
}

/// The scopes after a node: a declaration leaves its own name declared in the
/// innermost scope; nothing else stays.
pub open spec fn node_scopes(sc: Seq<FrameView>, n: Node) -> Seq<FrameView> {
    match n {
        Node::Variable(v) => match v.name {
            Some(name) => set_var(sc, name@, type_string(v.type_expr)),
            None => sc,
        },
        _ => sc,
    }
}

proof fn lemma_keeps_trans(a: AnalysisState, b: AnalysisState, c: AnalysisState)
    requires
        keeps(a, b),
        keeps(b, c),
    ensures
        keeps(a, c),
{
    assert forall|i: int| 0 <= i < a.errors.len() implies a.errors[i] == c.errors[i] by {
        assert(a.errors[i] == b.errors[i]);
    }
    assert forall|i: int| 0 <= i < a.scopes.len() - 1 implies #[trigger] c.scopes[i] == a.scopes[i] by {
        assert(c.scopes[i] == b.scopes[i]);
    }
}

proof fn lemma_keeps_add(st: AnalysisState, errs: Seq<ErrorView>)
    ensures
        keeps(st, add_errors(st, errs)),
{
    assert(st.errors.is_prefix_of(st.errors + errs)) by {
        assert forall|i: int| 0 <= i < st.errors.len() implies st.errors[i] == (st.errors + errs)[i] by {}
    }
}

proof fn lemma_keeps_set_var(st: AnalysisState, name: Seq<char>, ty: Seq<char>)
    ensures
        keeps(st, with_scopes(st, set_var(st.scopes, name, ty))),
{
    assert(st.errors.is_prefix_of(st.errors));
}

proof fn lemma_declare_args_keeps(st: AnalysisState, args: Seq<Arg>)
    ensures
        keeps(st, with_scopes(st, declare_args(st.scopes, args))),
    decreases args.len(),
{
    if args.len() == 0 {
        assert(st.errors.is_prefix_of(st.errors));
    } else {
        let sc1 = match args[0] {
            Arg::Typed { ty, name, .. } => set_var(st.scopes, name@, type_string(ty)),
            _ => st.scopes,
        };
        let st1 = with_scopes(st, sc1);
        match args[0] {
            Arg::Typed { ty, name, .. } => lemma_keeps_set_var(st, name@, type_string(ty)),
            _ => assert(st.errors.is_prefix_of(st.errors)),
        }
        lemma_declare_args_keeps(st1, args.drop_first());
        lemma_keeps_trans(st, st1, with_scopes(st, declare_args(st.scopes, args)));
    }
}

/// A block run in a fresh innermost scope (`inner` starts one frame deeper
/// than `outer`, with the same frames below) hands back, once that scope is
/// closed, exactly the scopes of `outer`, and only adds errors.
proof fn lemma_block_closes(outer: AnalysisState, start: AnalysisState, end: AnalysisState)
    requires
        start.scopes.len() == outer.scopes.len() + 1,
        forall|i: int| 0 <= i < outer.scopes.len() ==> #[trigger] start.scopes[i] == outer.scopes[i],
        outer.errors.is_prefix_of(start.errors),
        keeps(start, end),
    ensures
        with_scopes(end, exit(end.scopes)).scopes == outer.scopes,
        keeps(outer, with_scopes(end, exit(end.scopes))),
{
    let closed = exit(end.scopes);
    assert(closed.len() == outer.scopes.len());
    assert forall|i: int| 0 <= i < outer.scopes.len() implies closed[i] == outer.scopes[i] by {
        assert(end.scopes[i] == start.scopes[i]);
    }
    assert(closed =~= outer.scopes);
    assert forall|i: int| 0 <= i < outer.errors.len() implies outer.errors[i] == end.errors[i] by {
        assert(outer.errors[i] == start.errors[i]);
    }
}

/// Analyzing a node leaves the scope stack as deep as it found it, touches no
/// frame but the innermost (every scope opened for a block is closed again),
/// and never takes back an error: it only appends.
pub proof fn lemma_visit_node_keeps(st: AnalysisState, n: Node)
    ensures
        keeps(st, visit_node(st, n)),
        visit_node(st, n).scopes == node_scopes(st.scopes, n),
    decreases n, 1nat,
{
    match n {
        Node::Variable(v) => lemma_visit_variable_keeps(st, v),
        Node::Assignment(a) => {
            let (tt, te) = type_of(st.scopes, a.target);
            let (vt, ve) = type_of(st.scopes, a.value);
            let st1 = add_errors(st, te + ve);
            lemma_keeps_add(st, te + ve);
            if !compatible(tt, vt) {
                lemma_keeps_add(st1, seq![assignment_error(tt, vt, a.value.spec_span())]);
                lemma_keeps_trans(st, st1, visit_node(st, n));
            }
        },
        Node::ExprStmt(e) => lemma_keeps_add(st, type_of(st.scopes, e).1),
    }
}

/// Analyzing nodes in turn keeps the depth of the scope stack, the frames
/// below the innermost, and the errors already found.
pub proof fn lemma_visit_nodes_keeps(st: AnalysisState, ns: Seq<Node>)
    ensures
        keeps(st, visit_nodes(st, ns)),
    decreases ns, 0nat,
{
    if ns.len() == 0 {
        assert(st.errors.is_prefix_of(st.errors));
    } else {
        let st1 = visit_node(st, ns[0]);
        lemma_visit_node_keeps(st, ns[0]);
        lemma_visit_nodes_keeps(st1, ns.drop_first());
        lemma_keeps_trans(st, st1, visit_nodes(st, ns));
    }
}

/// Analyzing a declaration keeps what every step keeps, and leaves declared
/// only its own name: whatever its content declares goes out of scope with it.
pub proof fn lemma_visit_variable_keeps(st: AnalysisState, v: Variable)
    ensures
        keeps(st, visit_variable(st, v)),
        visit_variable(st, v).scopes == node_scopes(st.scopes, Node::Variable(v)),
    decreases v, 0nat,
{
    let declared = type_string(v.type_expr);
    let st1 = match v.name {
        Some(name) => with_scopes(st, set_var(st.scopes, name@, declared)),
        None => st,
    };
    match v.name {
        Some(name) => lemma_keeps_set_var(st, name@, declared),
        None => assert(st.errors.is_prefix_of(st.errors)),
    }
    if is_control(declared) {
        if v.content@.len() > 0 {
            let st2 = with_scopes(st1, enter(st1.scopes));
            let st3 = if declared == "for"@ { for_header(st2, v.arguments) } else { st2 };
            assert(keeps(st2, st3)) by {
                assert(st2.errors.is_prefix_of(st2.errors));
                if declared == "for"@ {
                    match v.arguments {
                        Some(list) => if list.args@.len() > 0 {
                            match list.args@[0] {
                                Arg::Positional(Expr::BinaryOp { left, op: BinOp::In, right, .. }) => match *left {
                                    Expr::Identifier(item, _) => {
                                        let (rt, re) = type_of(st2.scopes, *right);
                                        let item_ty = if is_array_type(rt) { element_of(rt) } else { "unknown"@ };
                                        let st_e = add_errors(st2, re);
                                        lemma_keeps_add(st2, re);
                                        lemma_keeps_set_var(st_e, item@, item_ty);
                                        lemma_keeps_trans(st2, st_e, st3);
                                    },
                                    _ => {},
                                },
                                _ => {},
                            }
                        },
                        None => {},
                    }
                }
            }
            assert(decreases_to!(v => v.content@));
            lemma_visit_nodes_keeps(st3, v.content@);
            let st4 = visit_nodes(st3, v.content@);
            lemma_keeps_trans(st2, st3, st4);
            assert(st1.errors.is_prefix_of(st2.errors));
            lemma_block_closes(st1, st2, st4);
            lemma_keeps_trans(st, st1, visit_variable(st, v));
        }
    } else {
        let st2 = match declared_value(v) {
            Some(e) => {
                let (vt, ve) = type_of(st1.scopes, e);
                let st_a = add_errors(st1, ve);
                if compatible(declared, vt) {
                    st_a
                } else {
                    let name = match v.name {
                        Some(n) => n@,
                        None => "<anonymous>"@,
                    };
                    add_errors(st_a, seq![mismatch_error(name, declared, vt, e.spec_span())])
                }
            },
            None => st1,
        };
        assert(keeps(st1, st2) && st2.scopes == st1.scopes) by {
            match declared_value(v) {
                Some(e) => {
                    let (vt, ve) = type_of(st1.scopes, e);
                    let st_a = add_errors(st1, ve);
                    lemma_keeps_add(st1, ve);
                    if !compatible(declared, vt) {
                        let name = match v.name {
                            Some(n) => n@,
                            None => "<anonymous>"@,
                        };
                        lemma_keeps_add(st_a, seq![mismatch_error(name, declared, vt, e.spec_span())]);
                        lemma_keeps_trans(st1, st_a, st2);
                    }
                },
                None => {
                    assert(st1.errors.is_prefix_of(st1.errors));
                },
            }
        }
        lemma_keeps_trans(st, st1, st2);
        if v.content@.len() > 0 {
            let st_e = with_scopes(st2, enter(st2.scopes));
            let st3 = match v.arguments {
                Some(list) => with_scopes(st_e, declare_args(st_e.scopes, list.args@)),
                None => st_e,
            };
            match v.arguments {
                Some(list) => lemma_declare_args_keeps(st_e, list.args@),
                None => assert(st_e.errors.is_prefix_of(st_e.errors)),
            }
            let st4 = if declared == "enum"@ { st3 } else { visit_nodes(st3, v.content@) };
            if declared != "enum"@ {
                assert(decreases_to!(v => v.content@));
                lemma_visit_nodes_keeps(st3, v.content@);
            } else {
                assert(st3.errors.is_prefix_of(st3.errors));
            }
            lemma_keeps_trans(st_e, st3, st4);
            assert(st2.errors.is_prefix_of(st_e.errors));
            lemma_block_closes(st2, st_e, st4);
            lemma_keeps_trans(st, st2, visit_variable(st, v));
        }
    }
}

/// No implicit conversion: two different types, neither of them `unknown`,
/// are incompatible (the allowances are array ones: an empty array literal,
/// whose type is `array[unknown]`, stored into an array, and any array stored
/// where a plain `array` is declared).
pub proof fn lemma_no_implicit_conversion(expected: Seq<char>, actual: Seq<char>)
    requires
        expected != actual,
        expected != "unknown"@,
        actual != "unknown"@,
        actual != "array[unknown]"@,
        expected != "array"@,
    ensures
        !compatible(expected, actual),
{
}

/// Every type fits a variable of the same type, and an unknown type fits
/// anywhere and takes anything.
pub proof fn lemma_compatible_accepts(t: Seq<char>)
    ensures
        compatible(t, t),
        compatible("unknown"@, t),
        compatible(t, "unknown"@),
{
}

/// Arithmetic never mixes `int` and `float`: either order is refused.
pub proof fn lemma_no_mixed_arithmetic(op: BinOp)
    ensures
        arithmetic_type("int"@, "float"@, op) is None,
        arithmetic_type("float"@, "int"@, op) is None,
{
    reveal_strlit("int");
    reveal_strlit("float");
    reveal_strlit("vec");
    reveal_strlit("mat");
    reveal_strlit("string");
    assert(!"vec"@.is_prefix_of("int"@)) by { assert("vec"@[0] != "int"@[0]); }
    assert(!"vec"@.is_prefix_of("float"@)) by { assert("vec"@[0] != "float"@[0]); }
    assert("int"@ != "float"@) by { assert("int"@.len() != "float"@.len()); }
    assert("int"@ != "string"@) by { assert("int"@.len() != "string"@.len()); }
    assert("float"@ != "string"@) by { assert("float"@.len() != "string"@.len()); }
    assert(!"mat"@.is_prefix_of("int"@)) by { assert("mat"@[0] != "int"@[0]); }
    assert(!"mat"@.is_prefix_of("float"@)) by { assert("mat"@[0] != "float"@[0]); }
    assert("int"@ != "tensor"@) by { reveal_strlit("tensor"); assert("int"@.len() != "tensor"@.len()); }
    assert("float"@ != "tensor"@) by { reveal_strlit("tensor"); assert("float"@.len() != "tensor"@.len()); }
    reveal_strlit("tensor");
}

/// Arithmetic keeps the type of its operands: two operands of one type give
/// that type or nothing, and two `int`s give an `int`, two `float`s a
/// `float`, whatever the operator.
pub proof fn lemma_arithmetic_keeps_type(t: Seq<char>, op: BinOp)
    ensures
        arithmetic_type(t, t, op) matches Some(u) ==> u == t,
        arithmetic_type("int"@, "int"@, op) == Some("int"@),
        arithmetic_type("float"@, "float"@, op) == Some("float"@),
{
}

/// A declaration whose value has a type incompatible with the declared one
/// is reported as a type mismatch, naming the variable, both types and the
/// value's place in the source.
pub proof fn lemma_mismatch_is_reported(st: AnalysisState, v: Variable, e: Expr)
    requires
        declared_value(v) == Some(e),
        !is_control(type_string(v.type_expr)),
        !compatible(type_string(v.type_expr), type_of(node_scopes(st.scopes, Node::Variable(v)), e).0),
    ensures
        visit_variable(st, v).errors.contains(mismatch_error(
            match v.name {
                Some(n) => n@,
                None => "<anonymous>"@,
            },
            type_string(v.type_expr),
            type_of(node_scopes(st.scopes, Node::Variable(v)), e).0,
            e.spec_span(),
        )),
{
    let declared = type_string(v.type_expr);
    let st1 = match v.name {
        Some(name) => with_scopes(st, set_var(st.scopes, name@, declared)),
        None => st,
    };
    let name = match v.name {
        Some(n) => n@,
        None => "<anonymous>"@,
    };
    let (vt, ve) = type_of(st1.scopes, e);
    let st_a = add_errors(st1, ve);
    let err = mismatch_error(name, declared, vt, e.spec_span());
    let st2 = add_errors(st_a, seq![err]);
    assert(st2.errors[st_a.errors.len() as int] == err);
    if v.content@.len() > 0 {
        let st_e = with_scopes(st2, enter(st2.scopes));
        let st3 = match v.arguments {
            Some(list) => with_scopes(st_e, declare_args(st_e.scopes, list.args@)),
            None => st_e,
        };
        match v.arguments {
            Some(list) => lemma_declare_args_keeps(st_e, list.args@),
            None => assert(st_e.errors.is_prefix_of(st_e.errors)),
        }
        let st4 = if declared == "enum"@ { st3 } else { visit_nodes(st3, v.content@) };
        if declared != "enum"@ {
            lemma_visit_nodes_keeps(st3, v.content@);
        } else {
            assert(st3.errors.is_prefix_of(st3.errors));
        }
        lemma_keeps_trans(st_e, st3, st4);
        assert(st2.errors.is_prefix_of(st_e.errors));
        lemma_block_closes(st2, st_e, st4);
        let fin = visit_variable(st, v);
        assert(fin.errors[st_a.errors.len() as int] == err);
    }
}

pub struct SemanticAnalyzer<'a> {
    scopes: Scopes,
    pub errors: Vec<VenusError>,
    error_handler: VenusErrorHandler<'a>,
}

impl<'a> SemanticAnalyzer<'a> {
    /// The scopes and errors.
    pub closed spec fn state(self) -> AnalysisState {
        AnalysisState { scopes: self.scopes.view(), errors: errors_view(self.errors@) }
    }

    /// The handler that renders this analyzer's errors.
    pub closed spec fn handler(self) -> VenusErrorHandler<'a> {
        self.error_handler
    }

    pub fn new(source_code: &'a str, file_name: &'a str) -> (a: Self)
        ensures
            a.state() == (AnalysisState { scopes: seq![Seq::<(Seq<char>, Seq<char>)>::empty()], errors: seq![] }),
            a.handler().source() == source_code@,
            a.handler().file() == file_name@,
    {
        let a = Self {
            scopes: Scopes::global(),  // Global scope
            errors: Vec::new(),
            error_handler: VenusErrorHandler::new(source_code, file_name),
        };
        assert(errors_view(a.errors@) =~= seq![]);
        a
    }

    /// The error handler, for reporting the errors found.
    pub fn error_handler(&self) -> (h: &VenusErrorHandler<'a>)
        ensures
            *h == self.handler(),
    {
        &self.error_handler
    }

    /// Analyzes the program's nodes in order; true when no error was found
    /// (including earlier ones).
    pub fn analyze(&mut self, program: &Program) -> (valid: bool)
        ensures
            final(self).state() == visit_nodes(old(self).state(), program.nodes@),
            final(self).handler() == old(self).handler(),
            valid == (final(self).state().errors.len() == 0),
    {
        self.visit_all(&program.nodes);
        self.errors.len() == 0
    }

    fn visit_all(&mut self, nodes: &Vec<Node>)
        ensures
            final(self).state() == visit_nodes(old(self).state(), nodes@),
            final(self).handler() == old(self).handler(),
        decreases nodes,
    {
        let mut i: usize = 0;
        assert(nodes@.skip(0) == nodes@);
        while i < nodes.len()
            invariant
                i <= nodes@.len(),
                visit_nodes(old(self).state(), nodes@) == visit_nodes(self.state(), nodes@.skip(i as int)),
                self.handler() == old(self).handler(),
            decreases nodes@.len() - i,
        {
            proof {
                assert(decreases_to!(nodes => nodes@[i as int]));
                assert(nodes@.skip(i as int)[0] == nodes@[i as int]);
                assert(nodes@.skip(i as int).drop_first() == nodes@.skip(i + 1));
            }
            self.visit_node(&nodes[i]);
            i = i + 1;
        }
        assert(nodes@.skip(nodes@.len() as int).len() == 0);
    }

    fn push_error(&mut self, e: VenusError)
        ensures
            final(self).state() == add_errors(old(self).state(), seq![e.view()]),
            final(self).handler() == old(self).handler(),
    {
        self.errors.push(e);
        assert(errors_view(self.errors@) =~= errors_view(old(self).errors@) + seq![e.view()]);
    }

    fn enter_scope(&mut self)
        ensures
            final(self).state() == with_scopes(old(self).state(), enter(old(self).state().scopes)),
            final(self).handler() == old(self).handler(),
    {
        self.scopes.enter_scope();
    }

    fn exit_scope(&mut self)
        ensures
            final(self).state() == with_scopes(old(self).state(), exit(old(self).state().scopes)),
            final(self).handler() == old(self).handler(),
    {
        self.scopes.exit_scope();
    }

    fn set_var_type(&mut self, name: &str, ty: &str)
        ensures
            final(self).state() == with_scopes(old(self).state(), set_var(old(self).state().scopes, name@, ty@)),
            final(self).handler() == old(self).handler(),
    {
        self.scopes.set_var_type(name, ty);
    }

    fn visit_node(&mut self, node: &Node)
        ensures
            final(self).state() == visit_node(old(self).state(), *node),
            final(self).handler() == old(self).handler(),
        decreases node,
    {
        match node {
            Node::Variable(var) => self.visit_variable(var),
            Node::Assignment(assign) => self.visit_assignment(assign),
            Node::ExprStmt(expr) => {
                self.get_type_of_expr(expr);
            },
        }
    }

    fn type_expr_to_string(&self, expr: &TypeExpr) -> (s: String)
        ensures
            s@ == type_string(*expr),
        decreases expr,
    {
        match expr {
            TypeExpr::Named(n) => n.clone(),
            TypeExpr::Array(inner) => msg3("array[", self.type_expr_to_string(inner).as_str(), "]"),
        }
    }

    fn visit_variable(&mut self, var: &Variable)
        ensures
            final(self).state() == visit_variable(old(self).state(), *var),
            final(self).handler() == old(self).handler(),
        decreases var,
    {
        let declared_ty = self.type_expr_to_string(&var.type_expr);
        if let Some(name) = &var.name {
            self.set_var_type(name.as_str(), declared_ty.as_str());
        }
        let ghost st1 = self.state();
        let d = declared_ty.as_str();
        if same_text(d, "if") || same_text(d, "for") || same_text(d, "while") || same_text(d, "return") || same_text(d, "import") {
            if var.content.len() > 0 {
                self.enter_scope();
                if same_text(d, "for") {
                    self.declare_for_item(&var.arguments);
                }
                proof {
                    assert(decreases_to!(var => var.content));
                }
                self.visit_all(&var.content);
                self.exit_scope();
            }
            return;
        }
        if var.content.len() > 0 {
            if let Node::Variable(anon_var) = &var.content[0] {
                if anon_var.name.is_none() && anon_var.content.len() > 0 {
                    if let Node::ExprStmt(val_expr) = &anon_var.content[0] {
                        let val_ty = self.get_type_of_expr(val_expr);
                        if !self.is_compatible(d, val_ty.as_str()) {
                            let shown = match &var.name {
                                Some(n) => n.clone(),
                                None => owned("<anonymous>"),
                            };
                            let e = VenusError {
                                title: owned("Type Mismatch"),
                                message: msg5("Ви намагаєтесь записати '", val_ty.as_str(), "' у змінну типу '", d, "'."),
                                hint: Some(msg5("Змініть тип змінної '", shown.as_str(), "' на '", val_ty.as_str(), "', або передайте правильне значення.")),
                                span: val_expr.span(),
                            };
                            self.push_error(e);
                        }
                    }
                }
            }
        }
        if var.content.len() > 0 {
            self.enter_scope();
            if let Some(args) = &var.arguments {
                self.declare_typed_args(&args.args);
            }
            if !same_text(d, "enum") {
                // an enum's content lists its members, not expressions to check
                proof {
                    assert(decreases_to!(var => var.content));
                }
                self.visit_all(&var.content);
            }
            self.exit_scope();
        }
    }

    /// Declares `x` for a `for(x in xs)` header.
    fn declare_for_item(&mut self, args: &Option<ArgList>)
        ensures
            final(self).state() == for_header(old(self).state(), *args),
            final(self).handler() == old(self).handler(),
    {
        if let Some(list) = args {
            if list.args.len() > 0 {
                if let Arg::Positional(Expr::BinaryOp { left, op: BinOp::In, right, .. }) = &list.args[0] {
                    if let Expr::Identifier(item_name, _) = &**left {
                        let right_ty = self.get_type_of_expr(right);
                        let item_ty = if is_array(right_ty.as_str()) {
                            element_type(right_ty.as_str())
                        } else {
                            owned("unknown")
                        };
                        self.set_var_type(item_name.as_str(), item_ty.as_str());
                    }
                }
            }
        }
    }

    fn declare_typed_args(&mut self, args: &Vec<Arg>)
        ensures
            final(self).state() == with_scopes(old(self).state(), declare_args(old(self).state().scopes, args@)),
            final(self).handler() == old(self).handler(),
    {
        let mut i: usize = 0;
        assert(args@.skip(0) == args@);
        while i < args.len()
            invariant
                i <= args@.len(),
                declare_args(old(self).state().scopes, args@) == declare_args(self.state().scopes, args@.skip(i as int)),
                self.state().errors == old(self).state().errors,
                self.handler() == old(self).handler(),
            decreases args@.len() - i,
        {
            proof {
                assert(args@.skip(i as int)[0] == args@[i as int]);
                assert(args@.skip(i as int).drop_first() == args@.skip(i + 1));
            }
            if let Arg::Typed { ty, name, .. } = &args[i] {
                let arg_ty = self.type_expr_to_string(ty);
                self.set_var_type(name.as_str(), arg_ty.as_str());
            }
            i = i + 1;
        }
        assert(args@.skip(args@.len() as int).len() == 0);
    }

    fn visit_assignment(&mut self, assign: &Assignment)
        ensures
            final(self).state() == visit_assignment(old(self).state(), *assign),
            final(self).handler() == old(self).handler(),
    {
        let ghost st0 = self.state();
        let target_ty = self.get_type_of_expr(&assign.target);
        let val_ty = self.get_type_of_expr(&assign.value);
        proof {
            let (tt, te) = type_of(st0.scopes, assign.target);
            let (vt, ve) = type_of(st0.scopes, assign.value);
            assert(self.state().errors =~= st0.errors + (te + ve));
        }

        if !self.is_compatible(target_ty.as_str(), val_ty.as_str()) {
            let e = VenusError {
                title: owned("Invalid Assignment"),
                message: msg5("Неможливо записати значення типу '", val_ty.as_str(), "' у ціль типу '", target_ty.as_str(), "'."),
                hint: Some(owned("Перевірте типи даних.")),
                span: assign.value.span(),
            };
            self.push_error(e);
        }
    }

    fn is_compatible(&self, expected: &str, actual: &str) -> (b: bool)
        ensures
            b == compatible(expected@, actual@),
    {
        if same_text(expected, "unknown") || same_text(actual, "unknown") {
            return true;
        }  // Fallback to avoid cascading errors
        if same_text(actual, "array[unknown]") && is_array(expected) {
            return true;
        }
        if same_text(expected, "array") && is_array(actual) {
            return true;
        }
        if same_text(expected, actual) {
            return true;
        }
        // Strict typing: no implicit conversions.
        false
    }

    fn get_type_of_expr(&mut self, expr: &Expr) -> (t: String)
        ensures
            t@ == type_of(old(self).state().scopes, *expr).0,
            final(self).state() == add_errors(old(self).state(), type_of(old(self).state().scopes, *expr).1),
            final(self).handler() == old(self).handler(),
        decreases expr,
    {
        match expr {
            Expr::IntLiteral(..) => owned("int"),
            Expr::FloatLiteral(..) => owned("float"),
            Expr::StringLiteral(..) => owned("string"),
            Expr::BoolLiteral(..) => owned("bool"),
            Expr::ArrayLiteral(items, _) => {
                if items.len() == 0 {
                    assert(self.state().errors + seq![] =~= self.state().errors);
                    return owned("array[unknown]");
                }
                proof {
                    assert(decreases_to!(expr => items@[0]));
                }
                let first_ty = self.get_type_of_expr(&items[0]);
                msg3("array[", first_ty.as_str(), "]")
            },
            Expr::Identifier(name, span) => {
                match self.scopes.get_var_type(name.as_str()) {
                    Some(ty) => {
                        assert(self.state().errors + seq![] =~= self.state().errors);
                        ty
                    },
                    None => {
                        let n = name.as_str();
                        if same_text(n, "vec2") || same_text(n, "vec3") || same_text(n, "vec4") || same_text(n, "print") || same_text(n, "log") {
                            assert(self.state().errors + seq![] =~= self.state().errors);
                            return name.clone();
                        }
                        let e = VenusError {
                            title: owned("Undefined Variable"),
                            message: msg3("Змінна '", n, "' не знайдена у цій області видимості."),
                            hint: Some(owned("Переконайтеся, що ви ініціалізували змінну перед використанням.")),
                            span: *span,
                        };
                        self.push_error(e);
                        owned("unknown")
                    },
                }
            },
            Expr::BinaryOp { left, op, right, .. } => {
                let ghost st0 = self.state();
                let left_ty = self.get_type_of_expr(left);
                let right_ty = self.get_type_of_expr(right);
                let span = expr.span();
                let t = self.resolve_binary_op(left_ty.as_str(), right_ty.as_str(), op, &span);
                proof {
                    let (lt, le) = type_of(st0.scopes, **left);
                    let (rt, re) = type_of(st0.scopes, **right);
                    let (bt, be) = binary_type(lt, rt, *op, expr.spec_span());
                    assert(self.state().errors =~= st0.errors + (le + re + be));
                }
                t
            },
            Expr::MemberAccess { object, member, .. } => {
                let _obj_ty = self.get_type_of_expr(object);
                // Members are not looked up in declarations: only a few are known.
                if same_text(member.as_str(), "len") {
                    return owned("int");
                }
                if same_text(member.as_str(), "to_string") {
                    return owned("string");
                }
                owned("unknown")
            },
            Expr::Call { callee, args, .. } => {
                let ghost st0 = self.state();
                let callee_ty = self.get_type_of_expr(callee);
                proof {
                    assert(decreases_to!(expr => args));
                }
                self.type_args(args);
                proof {
                    let (ct, ce) = type_of(st0.scopes, **callee);
                    assert(self.state().errors =~= st0.errors + (ce + args_errors(st0.scopes, args@)));
                }
                if let Expr::Identifier(name, _) = &**callee {
                    let n = name.as_str();
                    if same_text(n, "alloc") {
                        return owned("buffer");
                    }
                    if same_text(n, "spawn") {
                        return owned("task");
                    }
                    if same_text(n, "tensor") {
                        return owned("tensor");
                    }
                    if same_text(n, "signal") {
                        return owned("signal");
                    }
                }
                if same_text(callee_ty.as_str(), "func") {
                    owned("unknown")
                } else {
                    callee_ty
                }
            },
            Expr::IndexAccess { object, index, .. } => {
                let ghost st0 = self.state();
                let obj_ty = self.get_type_of_expr(object);
                self.get_type_of_expr(index);
                proof {
                    let (ot, oe) = type_of(st0.scopes, **object);
                    let (it, ie) = type_of(st0.scopes, **index);
                    assert(self.state().errors =~= st0.errors + (oe + ie));
                }
                if is_array(obj_ty.as_str()) {
                    element_type(obj_ty.as_str())
                } else {
                    owned("unknown")
                }
            },
            Expr::UnaryOp { .. } => {
                assert(self.state().errors + seq![] =~= self.state().errors);
                owned("unknown")
            },
        }
    }

    /// Analyzes each call argument in turn.
    fn type_args(&mut self, args: &Vec<Expr>)
        ensures
            final(self).state() == add_errors(old(self).state(), args_errors(old(self).state().scopes, args@)),
            final(self).handler() == old(self).handler(),
        decreases args,
    {
        let mut i: usize = 0;
        assert(args@.skip(0) == args@);
        while i < args.len()
            invariant
                i <= args@.len(),
                self.state().scopes == old(self).state().scopes,
                old(self).state().errors + args_errors(old(self).state().scopes, args@)
                    == self.state().errors + args_errors(old(self).state().scopes, args@.skip(i as int)),
                self.handler() == old(self).handler(),
            decreases args@.len() - i,
        {
            proof {
                assert(decreases_to!(args => args@[i as int]));
                assert(args@.skip(i as int)[0] == args@[i as int]);
                assert(args@.skip(i as int).drop_first() == args@.skip(i + 1));
            }
            let ghost e0 = self.state().errors;
            self.get_type_of_expr(&args[i]);
            proof {
                let sc = old(self).state().scopes;
                assert(e0 + args_errors(sc, args@.skip(i as int)) =~= (e0 + type_of(sc, args@[i as int]).1)
                    + args_errors(sc, args@.skip(i + 1)));
            }
            i = i + 1;
        }
        proof {
            assert(args@.skip(args@.len() as int).len() == 0);
            assert(self.state().errors + seq![] =~= self.state().errors);
        }
    }

    fn resolve_binary_op(&mut self, left_ty: &str, right_ty: &str, op: &BinOp, span: &Span) -> (t: String)
        ensures
            t@ == binary_type(left_ty@, right_ty@, *op, *span).0,
            final(self).state() == add_errors(old(self).state(), binary_type(left_ty@, right_ty@, *op, *span).1),
            final(self).handler() == old(self).handler(),
    {
        if same_text(left_ty, "unknown") || same_text(right_ty, "unknown") {
            assert(self.state().errors + seq![] =~= self.state().errors);
            return owned("unknown");
        }
        match op {
            BinOp::Add | BinOp::Sub | BinOp::Mul | BinOp::Div | BinOp::Mod => {
                match arithmetic_result(left_ty, right_ty, op) {
                    Some(t) => {
                        assert(self.state().errors + seq![] =~= self.state().errors);
                        t
                    },
                    None => {
                        let e = VenusError {
                            title: owned("Invalid Math Operation"),
                            message: msg5("Неможливо виконати операцію над несумісними типами: '", left_ty, "' та '", right_ty, "'."),
                            hint: Some(msg3("Спробуйте використати явне перетворення або broadcasting (наприклад '", left_ty, " * float').")),
                            span: *span,
                        };
                        self.push_error(e);
                        owned("unknown")
                    },
                }
            },
            _ => {
                assert(self.state().errors + seq![] =~= self.state().errors);
                owned("bool")
            },
        }
    }
}

/// `arithmetic_type`, computed.
fn arithmetic_result(l: &str, r: &str, op: &BinOp) -> (t: Option<String>)
    ensures
        t matches Some(s) ==> arithmetic_type(l@, r@, *op) == Some(s@),
        t is None ==> arithmetic_type(l@, r@, *op) is None,
{
    let l_int = same_text(l, "int");
    let l_float = same_text(l, "float");
    let r_int = same_text(r, "int");
    let r_float = same_text(r, "float");
    let l_vec = crate::text::str_starts_with(l, "vec");
    let l_mat = crate::text::str_starts_with(l, "mat");
    let same = same_text(l, r);
    if l_int && r_int {
        return Some(owned("int"));
    }
    if l_float && r_float {
        return Some(owned("float"));
    }
    if same_text(l, "string") && same_text(r, "string") && matches!(op, BinOp::Add) {
        return Some(owned("string"));
    }
    // Vectors, Matrices, Tensors
    if l_vec && same {
        return Some(owned(l));
    }
    if l_vec && (r_float || r_int) {
        return Some(owned(l));
    }
    if l_mat && same {
        return Some(owned(l));
    }
    if l_mat && (r_float || r_int || crate::text::str_starts_with(r, "vec")) {
        return Some(owned(l));
    }
    if same_text(l, "tensor") && same_text(r, "tensor") {
        return Some(owned("tensor"));
    }
    if same_text(l, "tensor") && (r_float || r_int) {
        return Some(owned("tensor"));
    }
    None
}

} // verus!
