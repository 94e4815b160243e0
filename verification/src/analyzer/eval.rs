//! The rules of the evaluator that do not touch a float: integer, boolean
//! and string arithmetic, which operation applies to which kinds of values,
//! which members and native methods each kind of value has, indexing, byte
//! buffers, and the table of native functions. The evaluator that holds the
//! values themselves (floats and vectors among them) applies these rules.

use vstd::prelude::*;
use crate::parser::ast::{BinOp, UnOp, AssignOp, Node, Expr, TypeExpr};
use crate::text::{str_eq, owned, concat, decimal, decimal_string, chars_of, matches_at};

verus! {

broadcast use vstd::string::group_string_axioms;

/// The kinds of runtime values.
#[derive(Debug, Clone, Copy, PartialEq, Eq, Structural)]
pub enum ValueKind {
    Int,
    Float,
    String,
    Bool,
    Array,
    Vec2,
    Vec3,
    Vec4,
    Function,
    Object,
    Buffer,
    Tensor,
    Signal,
    Task,
    ReturnValue,
    Void,
}

// ── Integers ──

/// Whether `op` on the 64-bit integers `a` and `b` has a result: sums,
/// differences and products must fit, and a quotient or remainder needs a
/// non-zero divisor and must fit too (`i64::MIN / -1` does not).
pub open spec fn int_op_defined(a: int, b: int, op: BinOp) -> bool {
    match op {
        BinOp::Add => i64::MIN <= a + b <= i64::MAX,
        BinOp::Sub => i64::MIN <= a - b <= i64::MAX,
        BinOp::Mul => i64::MIN <= a * b <= i64::MAX,
        BinOp::Div => b != 0 && !(a == i64::MIN && b == -1),
        BinOp::Mod => b != 0 && !(a == i64::MIN && b == -1),
        _ => true,
    }
}

pub open spec fn abs(a: int) -> int {
    if a < 0 { -a } else { a }
}

/// Integer division rounding toward zero.
pub open spec fn trunc_div(a: int, b: int) -> int {
    if (a < 0) == (b < 0) { abs(a) / abs(b) } else { -(abs(a) / abs(b)) }
}

/// The remainder that goes with `trunc_div`: it takes the sign of `a`.
pub open spec fn trunc_rem(a: int, b: int) -> int {
    if a < 0 { -(abs(a) % abs(b)) } else { abs(a) % abs(b) }
}

/// Quotients and remainders of 64-bit integers fit in 64 bits, but for
/// `i64::MIN / -1`.
proof fn lemma_trunc_bounds(a: int, b: int)
    requires
        i64::MIN <= a <= i64::MAX,
        i64::MIN <= b <= i64::MAX,
        b != 0,
        !(a == i64::MIN && b == -1),
    ensures
        i64::MIN <= trunc_div(a, b) <= i64::MAX,
        i64::MIN <= trunc_rem(a, b) <= i64::MAX,
        a == 0 ==> trunc_div(a, b) == 0 && trunc_rem(a, b) == 0,
{
    let x = abs(a);
    let d = abs(b);
    assert(0int / d == 0 && 0int % d == 0) by (nonlinear_arith)
        requires
            d >= 1,
    ;
    assert(0 <= x % d < d) by (nonlinear_arith)
        requires
            d >= 1,
            x >= 0,
    ;
    if d == 1 {
        assert(x / d == x) by (nonlinear_arith)
            requires
                d == 1,
        ;
    } else {
        assert(0 <= x / d <= x / 2) by (nonlinear_arith)
            requires
                d >= 2,
                x >= 0,
        ;
    }
}

/// What an operation on two integers gives: an integer or a truth value.
#[derive(Debug, Clone, Copy, PartialEq, Eq, Structural)]
pub enum IntOutcome {
    Int(i64),
    Bool(bool),
}

pub const UNSUPPORTED_BINARY: &'static str = "Unsupported binary operation";

/// `a op b` on integers: arithmetic and comparisons; the logical operators
/// and `in` are not supported.
pub open spec fn int_binary_spec(a: int, b: int, op: BinOp) -> Option<IntOutcome> {
    match op {
        BinOp::Add => Some(IntOutcome::Int((a + b) as i64)),
        BinOp::Sub => Some(IntOutcome::Int((a - b) as i64)),
        BinOp::Mul => Some(IntOutcome::Int((a * b) as i64)),
        BinOp::Div => Some(IntOutcome::Int(trunc_div(a, b) as i64)),
        BinOp::Mod => Some(IntOutcome::Int(trunc_rem(a, b) as i64)),
        BinOp::Eq => Some(IntOutcome::Bool(a == b)),
        BinOp::NotEq => Some(IntOutcome::Bool(a != b)),
        BinOp::Lt => Some(IntOutcome::Bool(a < b)),
        BinOp::Gt => Some(IntOutcome::Bool(a > b)),
        BinOp::LtEq => Some(IntOutcome::Bool(a <= b)),
        BinOp::GtEq => Some(IntOutcome::Bool(a >= b)),
        _ => None,
    }
}

/// Whether `a op b` has a result (see `int_op_defined`); the evaluator stops
/// with an overflow or division error where it has none.
pub fn int_op_defined_exec(a: i64, b: i64, op: BinOp) -> (r: bool)
    ensures
        r == int_op_defined(a as int, b as int, op),
{
    match op {
        BinOp::Add => a.checked_add(b).is_some(),
        BinOp::Sub => a.checked_sub(b).is_some(),
        BinOp::Mul => a.checked_mul(b).is_some(),
        BinOp::Div => b != 0 && !(a == i64::MIN && b == -1),
        BinOp::Mod => b != 0 && !(a == i64::MIN && b == -1),
        _ => true,
    }
}

/// `a op b` on two integers, or the error for an operator integers do not
/// support.
pub fn int_binary(a: i64, b: i64, op: BinOp) -> (r: Result<IntOutcome, String>)
    requires
        int_op_defined(a as int, b as int, op),
    ensures
        match int_binary_spec(a as int, b as int, op) {
            Some(v) => r == Ok::<IntOutcome, String>(v),
            None => r matches Err(m) && m@ == UNSUPPORTED_BINARY@,
        },
{
    match op {
        BinOp::Add => Ok(IntOutcome::Int(a + b)),
        BinOp::Sub => Ok(IntOutcome::Int(a - b)),
        BinOp::Mul => Ok(IntOutcome::Int(a * b)),
        BinOp::Div => {
            proof { lemma_trunc_bounds(a as int, b as int); }
            match a.checked_div(b) {
                Some(q) => {
                    assert(q == trunc_div(a as int, b as int));
                    Ok(IntOutcome::Int(q))
                },
                None => {
                    assert(false);
                    Ok(IntOutcome::Int(0))
                },
            }
        },
        BinOp::Mod => {
            proof { lemma_trunc_bounds(a as int, b as int); }
            match a.checked_rem(b) {
                Some(q) => {
                    assert(q == trunc_rem(a as int, b as int));
                    Ok(IntOutcome::Int(q))
                },
                None => {
                    assert(false);
                    Ok(IntOutcome::Int(0))
                },
            }
        },
        BinOp::Eq => Ok(IntOutcome::Bool(a == b)),
        BinOp::NotEq => Ok(IntOutcome::Bool(a != b)),
        BinOp::Lt => Ok(IntOutcome::Bool(a < b)),
        BinOp::Gt => Ok(IntOutcome::Bool(a > b)),
        BinOp::LtEq => Ok(IntOutcome::Bool(a <= b)),
        BinOp::GtEq => Ok(IntOutcome::Bool(a >= b)),
        _ => Err(owned(UNSUPPORTED_BINARY)),
    }
}

/// `-n`; it has no result for `i64::MIN`.
pub fn int_negate(n: i64) -> (r: i64)
    requires
        n != i64::MIN,
    ensures
        r == -n,
{
    -n
}

/// `n.abs()`; it has no result for `i64::MIN`.
pub fn int_abs(n: i64) -> (r: i64)
    requires
        n != i64::MIN,
    ensures
        r == abs(n as int),
{
    if n < 0 { -n } else { n }
}

// ── Booleans and strings ──

/// `a op b` on truth values: equality and the logical operators.
pub open spec fn bool_binary_spec(a: bool, b: bool, op: BinOp) -> Option<bool> {
    match op {
        BinOp::Eq => Some(a == b),
        BinOp::NotEq => Some(a != b),
        BinOp::And => Some(a && b),
        BinOp::Or => Some(a || b),
        _ => None,
    }
}

pub fn bool_binary(a: bool, b: bool, op: BinOp) -> (r: Result<bool, String>)
    ensures
        match bool_binary_spec(a, b, op) {
            Some(v) => r == Ok::<bool, String>(v),
            None => r matches Err(m) && m@ == UNSUPPORTED_BINARY@,
        },
{
    match op {
        BinOp::Eq => Ok(a == b),
        BinOp::NotEq => Ok(a != b),
        BinOp::And => Ok(a && b),
        BinOp::Or => Ok(a || b),
        _ => Err(owned(UNSUPPORTED_BINARY)),
    }
}

/// `!=` is the negation of `==` on two integers and on two booleans. (On two
/// strings it is not: `!=` is refused there while `==` answers.)
pub proof fn lemma_not_equal_negates(a: int, b: int, x: bool, y: bool)
    ensures
        int_binary_spec(a, b, BinOp::Eq) matches Some(IntOutcome::Bool(e)) && int_binary_spec(a, b, BinOp::NotEq)
            == Some(IntOutcome::Bool(!e)),
        bool_binary_spec(x, y, BinOp::Eq) matches Some(e) && bool_binary_spec(x, y, BinOp::NotEq) == Some(!e),
{
}

/// The integer comparisons follow the order of the integers: `<` holds
/// exactly when `a < b`, `==` exactly when `a == b`; `>` is `<` with the
/// operands swapped, so it never holds of equal operands; `<=` and `>=` are
/// the negations of `>` and `<`; `!=` is the negation of `==`.
pub proof fn lemma_int_comparisons(a: int, b: int)
    ensures
        int_binary_spec(a, b, BinOp::Lt) == Some(IntOutcome::Bool(a < b)),
        int_binary_spec(a, b, BinOp::Eq) == Some(IntOutcome::Bool(a == b)),
        int_binary_spec(a, b, BinOp::Gt) == int_binary_spec(b, a, BinOp::Lt),
        int_binary_spec(a, a, BinOp::Gt) == Some(IntOutcome::Bool(false)),
        int_binary_spec(a, b, BinOp::LtEq) matches Some(IntOutcome::Bool(x)) && int_binary_spec(a, b, BinOp::Gt)
            == Some(IntOutcome::Bool(!x)),
        int_binary_spec(a, b, BinOp::GtEq) matches Some(IntOutcome::Bool(x)) && int_binary_spec(a, b, BinOp::Lt)
            == Some(IntOutcome::Bool(!x)),
        int_binary_spec(a, b, BinOp::NotEq) matches Some(IntOutcome::Bool(x)) && int_binary_spec(a, b, BinOp::Eq)
            == Some(IntOutcome::Bool(!x)),
{
}

/// Integer arithmetic, where it is defined: `+` and `*` do not depend on
/// the order of their operands, `0` is neutral for `+` and `1` for `*`, and
/// `-` undoes `+`.
pub proof fn lemma_int_arithmetic(a: i64, b: i64)
    ensures
        int_binary_spec(a as int, b as int, BinOp::Add) == int_binary_spec(b as int, a as int, BinOp::Add),
        int_binary_spec(a as int, b as int, BinOp::Mul) == int_binary_spec(b as int, a as int, BinOp::Mul),
        int_binary_spec(a as int, 0, BinOp::Add) == Some(IntOutcome::Int(a)),
        int_binary_spec(a as int, 1, BinOp::Mul) == Some(IntOutcome::Int(a)),
        int_op_defined(a as int, b as int, BinOp::Sub) ==> (int_binary_spec(a as int, b as int, BinOp::Sub) matches Some(
            IntOutcome::Int(d),
        ) && int_binary_spec(d as int, b as int, BinOp::Add) == Some(IntOutcome::Int(a))),
{
}

/// The boolean operators: `&&` and `||` do not depend on the order of their
/// operands, `true` is neutral for `&&` and absorbing for `||`, `false` the
/// other way round; `==` holds exactly of equal operands and `!=` is its
/// negation.
pub proof fn lemma_bool_logic(x: bool, y: bool)
    ensures
        bool_binary_spec(x, y, BinOp::And) == bool_binary_spec(y, x, BinOp::And),
        bool_binary_spec(x, y, BinOp::Or) == bool_binary_spec(y, x, BinOp::Or),
        bool_binary_spec(x, true, BinOp::And) == Some(x),
        bool_binary_spec(x, false, BinOp::And) == Some(false),
        bool_binary_spec(x, false, BinOp::Or) == Some(x),
        bool_binary_spec(x, true, BinOp::Or) == Some(true),
        bool_binary_spec(x, y, BinOp::Eq) == Some(x == y),
        bool_binary_spec(x, y, BinOp::NotEq) == Some(x != y),
{
}

/// What an operation on two strings gives.
#[derive(Debug)]
pub enum StrOutcome {
    Str(String),
    Bool(bool),
}

/// `a op b` on strings: `+` joins them, `==` compares them; nothing else is
/// supported (not even `!=`).
pub fn string_binary(a: &str, b: &str, op: BinOp) -> (r: Result<StrOutcome, String>)
    ensures
        op is Add ==> (r matches Ok(StrOutcome::Str(s)) && s@ == a@ + b@),
        op is Eq ==> r == Ok::<StrOutcome, String>(StrOutcome::Bool(a@ == b@)),
        !(op is Add) && !(op is Eq) ==> (r matches Err(m) && m@ == UNSUPPORTED_BINARY@),
{
    match op {
        BinOp::Add => Ok(StrOutcome::Str(concat(a, b))),
        BinOp::Eq => Ok(StrOutcome::Bool(str_eq(a, b))),
        _ => Err(owned(UNSUPPORTED_BINARY)),
    }
}

// ── Which operation applies ──

pub const UNSUPPORTED: &'static str = "Unsupported";

pub const UNSUPPORTED_UNARY: &'static str = "Unsupported unary operation";

/// The dimension of a vector kind.
pub open spec fn vec_dim(k: ValueKind) -> Option<usize> {
    match k {
        ValueKind::Vec2 => Some(2usize),
        ValueKind::Vec3 => Some(3usize),
        ValueKind::Vec4 => Some(4usize),
        _ => None,
    }
}

/// How a binary operation is carried out.
#[derive(Debug, Clone, Copy, PartialEq, Eq, Structural)]
pub enum BinaryPlan {
    /// integer arithmetic or comparison (`int_binary`)
    Ints,
    /// the same operation on two floats
    Floats,
    /// equality or logic on truth values (`bool_binary`)
    Bools,
    /// joining or comparing strings (`string_binary`)
    Strings,
    /// two vectors of this dimension added or subtracted component by component
    Componentwise(usize),
    /// a vector of this dimension multiplied or divided by a float
    VectorByScalar(usize),
    /// a float multiplied by a vector of this dimension
    ScalarByVector(usize),
}

pub open spec fn is_arithmetic_or_comparison(op: BinOp) -> bool {
    !(op is And) && !(op is Or) && !(op is In)
}

/// Which operation `l op r` performs, or the error it stops with: numbers of
/// one kind take arithmetic and comparisons; truth values equality and logic;
/// strings `+` and `==`; a vector adds or subtracts a vector of its own
/// dimension and is multiplied or divided by a float, and a float multiplies a
/// vector. The vector combinations answer other operators with a shorter
/// error than everything else.
pub open spec fn binary_plan_spec(l: ValueKind, r: ValueKind, op: BinOp) -> Result<BinaryPlan, Seq<char>> {
    if l == ValueKind::Int && r == ValueKind::Int {
        if is_arithmetic_or_comparison(op) { Ok(BinaryPlan::Ints) } else { Err(UNSUPPORTED_BINARY@) }
    } else if l == ValueKind::Float && r == ValueKind::Float {
        if is_arithmetic_or_comparison(op) { Ok(BinaryPlan::Floats) } else { Err(UNSUPPORTED_BINARY@) }
    } else if l == ValueKind::Bool && r == ValueKind::Bool {
        if bool_binary_spec(true, true, op) is Some { Ok(BinaryPlan::Bools) } else { Err(UNSUPPORTED_BINARY@) }
    } else if l == ValueKind::String && r == ValueKind::String {
        if op is Add || op is Eq { Ok(BinaryPlan::Strings) } else { Err(UNSUPPORTED_BINARY@) }
    } else if vec_dim(l) is Some && l == r {
        if op is Add || op is Sub { Ok(BinaryPlan::Componentwise(vec_dim(l)->0)) } else { Err(UNSUPPORTED@) }
    } else if vec_dim(l) is Some && r == ValueKind::Float {
        if op is Mul || op is Div { Ok(BinaryPlan::VectorByScalar(vec_dim(l)->0)) } else { Err(UNSUPPORTED@) }
    } else if l == ValueKind::Float && vec_dim(r) is Some {
        if op is Mul { Ok(BinaryPlan::ScalarByVector(vec_dim(r)->0)) } else { Err(UNSUPPORTED@) }
    } else {
        Err(UNSUPPORTED_BINARY@)
    }
}

fn dim_of(k: ValueKind) -> (d: Option<usize>)
    ensures
        d == vec_dim(k),
{
    match k {
        ValueKind::Vec2 => Some(2),
        ValueKind::Vec3 => Some(3),
        ValueKind::Vec4 => Some(4),
        _ => None,
    }
}

pub fn binary_plan(l: ValueKind, r: ValueKind, op: BinOp) -> (p: Result<BinaryPlan, String>)
    ensures
        match binary_plan_spec(l, r, op) {
            Ok(plan) => p == Ok::<BinaryPlan, String>(plan),
            Err(m) => p is Err && p->Err_0@ == m,
        },
{
    let arith = match op {
        BinOp::And | BinOp::Or | BinOp::In => false,
        _ => true,
    };
    if l == ValueKind::Int && r == ValueKind::Int {
        if arith { Ok(BinaryPlan::Ints) } else { Err(owned(UNSUPPORTED_BINARY)) }
    } else if l == ValueKind::Float && r == ValueKind::Float {
        if arith { Ok(BinaryPlan::Floats) } else { Err(owned(UNSUPPORTED_BINARY)) }
    } else if l == ValueKind::Bool && r == ValueKind::Bool {
        match op {
            BinOp::Eq | BinOp::NotEq | BinOp::And | BinOp::Or => Ok(BinaryPlan::Bools),
            _ => Err(owned(UNSUPPORTED_BINARY)),
        }
    } else if l == ValueKind::String && r == ValueKind::String {
        match op {
            BinOp::Add | BinOp::Eq => Ok(BinaryPlan::Strings),
            _ => Err(owned(UNSUPPORTED_BINARY)),
        }
    } else {
        match (dim_of(l), dim_of(r)) {
            (Some(d), _) if l == r => match op {
                BinOp::Add | BinOp::Sub => Ok(BinaryPlan::Componentwise(d)),
                _ => Err(owned(UNSUPPORTED)),
            },
            (Some(d), _) if r == ValueKind::Float => match op {
                BinOp::Mul | BinOp::Div => Ok(BinaryPlan::VectorByScalar(d)),
                _ => Err(owned(UNSUPPORTED)),
            },
            (None, Some(d)) if l == ValueKind::Float => match op {
                BinOp::Mul => Ok(BinaryPlan::ScalarByVector(d)),
                _ => Err(owned(UNSUPPORTED)),
            },
            _ => Err(owned(UNSUPPORTED_BINARY)),
        }
    }
}

/// How a unary operation is carried out.
#[derive(Debug, Clone, Copy, PartialEq, Eq, Structural)]
pub enum UnaryPlan {
    NegateInt,
    NegateFloat,
    Not,
}

/// `-` applies to numbers, `!` to truth values; nothing else is supported.
pub open spec fn unary_plan_spec(op: UnOp, k: ValueKind) -> Option<UnaryPlan> {
    match (op, k) {
        (UnOp::Negate, ValueKind::Int) => Some(UnaryPlan::NegateInt),
        (UnOp::Negate, ValueKind::Float) => Some(UnaryPlan::NegateFloat),
        (UnOp::Not, ValueKind::Bool) => Some(UnaryPlan::Not),
        _ => None,
    }
}

pub fn unary_plan(op: UnOp, k: ValueKind) -> (p: Result<UnaryPlan, String>)
    ensures
        match unary_plan_spec(op, k) {
            Some(plan) => p == Ok::<UnaryPlan, String>(plan),
            None => p is Err && p->Err_0@ == UNSUPPORTED_UNARY@,
        },
{
    match (op, k) {
        (UnOp::Negate, ValueKind::Int) => Ok(UnaryPlan::NegateInt),
        (UnOp::Negate, ValueKind::Float) => Ok(UnaryPlan::NegateFloat),
        (UnOp::Not, ValueKind::Bool) => Ok(UnaryPlan::Not),
        _ => Err(owned(UNSUPPORTED_UNARY)),
    }
}

/// The binary operator a compound assignment applies (`+=` adds, ...); a
/// plain assignment applies none and stores the value itself.
pub open spec fn assign_binop_spec(op: AssignOp) -> Option<BinOp> {
    match op {
        AssignOp::Assign => None,
        AssignOp::AddAssign => Some(BinOp::Add),
        AssignOp::SubAssign => Some(BinOp::Sub),
        AssignOp::MulAssign => Some(BinOp::Mul),
        AssignOp::DivAssign => Some(BinOp::Div),
    }
}

pub fn assign_binop(op: AssignOp) -> (r: Option<BinOp>)
    ensures
        r == assign_binop_spec(op),
{
    match op {
        AssignOp::Assign => None,
        AssignOp::AddAssign => Some(BinOp::Add),
        AssignOp::SubAssign => Some(BinOp::Sub),
        AssignOp::MulAssign => Some(BinOp::Mul),
        AssignOp::DivAssign => Some(BinOp::Div),
    }
}

// ── Members and native methods ──

/// The index of the component `m` names on a vector of dimension `dim`:
/// `x`, `y`, `z`, `w`, with `r`, `g`, `b`, `a` as other names on a `vec4`.
pub open spec fn vec_component(dim: usize, m: Seq<char>) -> Option<usize> {
    if m == "x"@ || (dim == 4 && m == "r"@) {
        Some(0usize)
    } else if m == "y"@ || (dim == 4 && m == "g"@) {
        Some(1usize)
    } else if dim >= 3 && (m == "z"@ || (dim == 4 && m == "b"@)) {
        Some(2usize)
    } else if dim == 4 && (m == "w"@ || m == "a"@) {
        Some(3usize)
    } else {
        None
    }
}

pub fn vec_component_exec(dim: usize, m: &str) -> (r: Option<usize>)
    ensures
        r == vec_component(dim, m@),
{
    if str_eq(m, "x") || (dim == 4 && str_eq(m, "r")) {
        Some(0)
    } else if str_eq(m, "y") || (dim == 4 && str_eq(m, "g")) {
        Some(1)
    } else if dim >= 3 && (str_eq(m, "z") || (dim == 4 && str_eq(m, "b"))) {
        Some(2)
    } else if dim == 4 && (str_eq(m, "w") || str_eq(m, "a")) {
        Some(3)
    } else {
        None
    }
}

/// The native method `m` names on a value of kind `k`: the native function's
/// name and its parameter names.
pub open spec fn native_method(k: ValueKind, m: Seq<char>) -> Option<(Seq<char>, Seq<Seq<char>>)> {
    let none: Seq<Seq<char>> = seq![];
    match k {
        ValueKind::Vec2 => if m == "to_string"@ { Some(("__native_vec2_to_string"@, none)) } else { None },
        ValueKind::Vec3 => if m == "to_string"@ { Some(("__native_vec3_to_string"@, none)) } else { None },
        ValueKind::Vec4 => if m == "to_string"@ { Some(("__native_vec4_to_string"@, none)) } else { None },
        ValueKind::Bool => if m == "to_string"@ { Some(("__native_bool_to_string"@, none)) } else { None },
        ValueKind::String => if m == "len"@ {
            Some(("__native_string_len"@, none))
        } else if m == "upper"@ {
            Some(("__native_string_upper"@, none))
        } else if m == "lower"@ {
            Some(("__native_string_lower"@, none))
        } else if m == "contains"@ {
            Some(("__native_string_contains"@, seq!["substr"@]))
        } else if m == "replace"@ {
            Some(("__native_string_replace"@, seq!["from"@, "to"@]))
        } else {
            None
        },
        ValueKind::Array => if m == "len"@ {
            Some(("__native_array_len"@, none))
        } else if m == "push"@ {
            Some(("__native_array_push"@, seq!["item"@]))
        } else if m == "pop"@ {
            Some(("__native_array_pop"@, none))
        } else if m == "clear"@ {
            Some(("__native_array_clear"@, none))
        } else if m == "remove"@ {
            Some(("__native_array_remove"@, seq!["index"@]))
        } else {
            None
        },
        ValueKind::Int => if m == "to_string"@ {
            Some(("__native_int_to_string"@, none))
        } else if m == "abs"@ {
            Some(("__native_int_abs"@, none))
        } else {
            None
        },
        ValueKind::Float => if m == "to_string"@ { Some(("__native_float_to_string"@, none)) } else { None },
        ValueKind::Buffer => if m == "read_u8"@ {
            Some(("__native_buffer_read_u8"@, seq!["index"@]))
        } else if m == "write_u8"@ {
            Some(("__native_buffer_write_u8"@, seq!["index"@, "value"@]))
        } else if m == "len"@ {
            Some(("__native_buffer_len"@, none))
        } else {
            None
        },
        ValueKind::Signal => if m == "connect"@ {
            Some(("__native_signal_connect"@, seq!["listener"@]))
        } else if m == "emit"@ {
            Some(("__native_signal_emit"@, none))
        } else {
            None
        },
        ValueKind::Task => if m == "resume"@ { Some(("__native_task_resume"@, none)) } else { None },
        _ => None,
    }
}

/// The start of the error for a member that a kind of value does not have
/// (vectors speak of members, the others of methods).
pub open spec fn missing_prefix(k: ValueKind) -> Seq<char> {
    match k {
        ValueKind::Vec2 => "Vec2 has no member '"@,
        ValueKind::Vec3 => "Vec3 has no member '"@,
        ValueKind::Vec4 => "Vec4 has no member '"@,
        ValueKind::Bool => "Bool has no method '"@,
        ValueKind::String => "String has no method '"@,
        ValueKind::Array => "Array has no method '"@,
        ValueKind::Int => "Int has no method '"@,
        ValueKind::Float => "Float has no method '"@,
        ValueKind::Buffer => "Buffer has no method '"@,
        ValueKind::Signal => "Signal has no method '"@,
        _ => "Task has no method '"@,
    }
}

/// A native method: the native function's name and its parameter names.
#[derive(Debug)]
pub struct NativeMethod {
    pub name: String,
    pub params: Vec<String>,
}

pub open spec fn params_view(v: Vec<String>) -> Seq<Seq<char>> {
    v@.map_values(|s: String| s@)
}

/// What reading member `m` of a value gives.
#[derive(Debug)]
pub enum MemberPlan {
    /// an object's member, looked up among its members
    Field,
    /// the vector component at this index
    Component(usize),
    /// a native method, called with the value as receiver
    Method(NativeMethod),
}

/// Why a member cannot be read.
#[derive(Debug)]
pub enum MemberError {
    /// the kind of value has no such member; the message says so
    Missing(String),
    /// members cannot be read from this kind of value at all
    NotAccessible,
}

/// What member access means, as plain values.
pub enum MemberView {
    Field,
    Component(usize),
    Method(Seq<char>, Seq<Seq<char>>),
    Missing(Seq<char>),
    NotAccessible,
}

/// Reading member `m` of a value of kind `k`: objects look it up among their
/// members; vectors have their components and `to_string`; the other kinds
/// with methods have their native methods; functions, tensors, returned
/// values and `void` have no members.
pub open spec fn member_spec(k: ValueKind, m: Seq<char>) -> MemberView {
    if k == ValueKind::Object {
        MemberView::Field
    } else if k == ValueKind::Function || k == ValueKind::Tensor || k == ValueKind::ReturnValue || k == ValueKind::Void {
        MemberView::NotAccessible
    } else if vec_dim(k) is Some && vec_component(vec_dim(k)->0, m) is Some {
        MemberView::Component(vec_component(vec_dim(k)->0, m)->0)
    } else {
        match native_method(k, m) {
            Some((n, ps)) => MemberView::Method(n, ps),
            None => MemberView::Missing(missing_prefix(k) + m + "'"@),
        }
    }
}

pub open spec fn member_result_view(r: Result<MemberPlan, MemberError>) -> MemberView {
    match r {
        Ok(MemberPlan::Field) => MemberView::Field,
        Ok(MemberPlan::Component(i)) => MemberView::Component(i),
        Ok(MemberPlan::Method(nm)) => MemberView::Method(nm.name@, params_view(nm.params)),
        Err(MemberError::Missing(msg)) => MemberView::Missing(msg@),
        Err(MemberError::NotAccessible) => MemberView::NotAccessible,
    }
}

fn method0(name: &str) -> (m: NativeMethod)
    ensures
        m.name@ == name@,
        params_view(m.params) == Seq::<Seq<char>>::empty(),
{
    let params: Vec<String> = Vec::new();
    proof {
        assert(params_view(params) =~= Seq::<Seq<char>>::empty());
    }
    NativeMethod { name: owned(name), params }
}

fn method1(name: &str, p: &str) -> (m: NativeMethod)
    ensures
        m.name@ == name@,
        params_view(m.params) == seq![p@],
{
    let mut params: Vec<String> = Vec::new();
    params.push(owned(p));
    proof {
        assert(params_view(params) =~= seq![p@]);
    }
    NativeMethod { name: owned(name), params }
}

fn method2(name: &str, p: &str, q: &str) -> (m: NativeMethod)
    ensures
        m.name@ == name@,
        params_view(m.params) == seq![p@, q@],
{
    let mut params: Vec<String> = Vec::new();
    params.push(owned(p));
    params.push(owned(q));
    proof {
        assert(params_view(params) =~= seq![p@, q@]);
    }
    NativeMethod { name: owned(name), params }
}

fn native_method_exec(k: ValueKind, m: &str) -> (r: Option<NativeMethod>)
    ensures
        match native_method(k, m@) {
            Some((n, ps)) => r is Some && r->0.name@ == n && params_view(r->0.params) == ps,
            None => r is None,
        },
{
    match k {
        ValueKind::Vec2 => if str_eq(m, "to_string") { Some(method0("__native_vec2_to_string")) } else { None },
        ValueKind::Vec3 => if str_eq(m, "to_string") { Some(method0("__native_vec3_to_string")) } else { None },
        ValueKind::Vec4 => if str_eq(m, "to_string") { Some(method0("__native_vec4_to_string")) } else { None },
        ValueKind::Bool => if str_eq(m, "to_string") { Some(method0("__native_bool_to_string")) } else { None },
        ValueKind::String => if str_eq(m, "len") {
            Some(method0("__native_string_len"))
        } else if str_eq(m, "upper") {
            Some(method0("__native_string_upper"))
        } else if str_eq(m, "lower") {
            Some(method0("__native_string_lower"))
        } else if str_eq(m, "contains") {
            Some(method1("__native_string_contains", "substr"))
        } else if str_eq(m, "replace") {
            Some(method2("__native_string_replace", "from", "to"))
        } else {
            None
        },
        ValueKind::Array => if str_eq(m, "len") {
            Some(method0("__native_array_len"))
        } else if str_eq(m, "push") {
            Some(method1("__native_array_push", "item"))
        } else if str_eq(m, "pop") {
            Some(method0("__native_array_pop"))
        } else if str_eq(m, "clear") {
            Some(method0("__native_array_clear"))
        } else if str_eq(m, "remove") {
            Some(method1("__native_array_remove", "index"))
        } else {
            None
        },
        ValueKind::Int => if str_eq(m, "to_string") {
            Some(method0("__native_int_to_string"))
        } else if str_eq(m, "abs") {
            Some(method0("__native_int_abs"))
        } else {
            None
        },
        ValueKind::Float => if str_eq(m, "to_string") { Some(method0("__native_float_to_string")) } else { None },
        ValueKind::Buffer => if str_eq(m, "read_u8") {
            Some(method1("__native_buffer_read_u8", "index"))
        } else if str_eq(m, "write_u8") {
            Some(method2("__native_buffer_write_u8", "index", "value"))
        } else if str_eq(m, "len") {
            Some(method0("__native_buffer_len"))
        } else {
            None
        },
        ValueKind::Signal => if str_eq(m, "connect") {
            Some(method1("__native_signal_connect", "listener"))
        } else if str_eq(m, "emit") {
            Some(method0("__native_signal_emit"))
        } else {
            None
        },
        ValueKind::Task => if str_eq(m, "resume") { Some(method0("__native_task_resume")) } else { None },
        _ => None,
    }
}

fn missing_prefix_exec(k: ValueKind) -> (s: &'static str)
    ensures
        s@ == missing_prefix(k),
{
    match k {
        ValueKind::Vec2 => "Vec2 has no member '",
        ValueKind::Vec3 => "Vec3 has no member '",
        ValueKind::Vec4 => "Vec4 has no member '",
        ValueKind::Bool => "Bool has no method '",
        ValueKind::String => "String has no method '",
        ValueKind::Array => "Array has no method '",
        ValueKind::Int => "Int has no method '",
        ValueKind::Float => "Float has no method '",
        ValueKind::Buffer => "Buffer has no method '",
        ValueKind::Signal => "Signal has no method '",
        _ => "Task has no method '",
    }
}

/// What reading member `member` of a value of kind `k` gives (see
/// `member_spec`).
pub fn member_plan(k: ValueKind, member: &str) -> (r: Result<MemberPlan, MemberError>)
    ensures
        member_result_view(r) == member_spec(k, member@),
{
    if k == ValueKind::Object {
        return Ok(MemberPlan::Field);
    }
    if k == ValueKind::Function || k == ValueKind::Tensor || k == ValueKind::ReturnValue || k == ValueKind::Void {
        return Err(MemberError::NotAccessible);
    }
    if let Some(d) = dim_of(k) {
        if let Some(i) = vec_component_exec(d, member) {
            return Ok(MemberPlan::Component(i));
        }
    }
    match native_method_exec(k, member) {
        Some(nm) => Ok(MemberPlan::Method(nm)),
        None => {
            let msg = concat(concat(missing_prefix_exec(k), member).as_str(), "'");
            Err(MemberError::Missing(msg))
        },
    }
}

// ── Indexing, numbers as text, messages ──

/// The position `i` selects in an array of `len` items: from the front when
/// it is not negative, from the back (`-1` is the last item) when it is.
pub open spec fn index_slot_spec(len: int, i: int) -> Option<int> {
    if 0 <= i < len {
        Some(i)
    } else if i < 0 && 0 <= len + i {
        Some(len + i)
    } else {
        None
    }
}

pub fn index_slot(len: usize, i: i64) -> (r: Option<usize>)
    requires
        len <= i64::MAX,
    ensures
        match index_slot_spec(len as int, i as int) {
            Some(k) => r == Some(k as usize),
            None => r is None,
        },
{
    if i >= 0 {
        if (i as u64) < (len as u64) { Some(i as usize) } else { None }
    } else {
        let back: i64 = len as i64 + i;
        if back >= 0 { Some(back as usize) } else { None }
    }
}

/// The decimal spelling of an integer, with a leading `-` when negative.
pub open spec fn int_text(n: int) -> Seq<char> {
    if n < 0 { "-"@ + decimal((-n) as nat) } else { decimal(n as nat) }
}

/// `n.to_string()`.
pub fn int_string(n: i64) -> (s: String)
    ensures
        s@ == int_text(n as int),
{
    if n < 0 {
        let magnitude: u64 = if n == i64::MIN { 9223372036854775808u64 } else { (-n) as u64 };
        concat("-", decimal_string(magnitude).as_str())
    } else {
        decimal_string(n as u64)
    }
}

/// `b.to_string()`.
pub fn bool_string(b: bool) -> (s: String)
    ensures
        s@ == (if b { "true"@ } else { "false"@ }),
{
    if b { owned("true") } else { owned("false") }
}

/// The error for an index that selects no item.
pub fn index_error(i: i64) -> (s: String)
    ensures
        s@ == "Index "@ + int_text(i as int) + " out of bounds"@,
{
    concat(concat("Index ", int_string(i).as_str()).as_str(), " out of bounds")
}

/// The error for a name no scope knows.
pub fn undefined_identifier(name: &str) -> (s: String)
    ensures
        s@ == "Undefined identifier: "@ + name@,
{
    concat("Undefined identifier: ", name)
}

/// The error for a member an object does not have.
pub fn object_member_missing(member: &str) -> (s: String)
    ensures
        s@ == "Object has no member '"@ + member@ + "'"@,
{
    concat(concat("Object has no member '", member).as_str(), "'")
}

/// A call passes as many arguments as the function has parameters, or stops
/// with an error that gives both numbers.
pub fn check_arity(expected: usize, got: usize) -> (r: Result<(), String>)
    ensures
        r is Ok <==> expected == got,
        r is Err ==> r->Err_0@ == "Expected "@ + decimal(expected as nat) + " args, got "@ + decimal(got as nat),
{
    if expected == got {
        Ok(())
    } else {
        let e = decimal_string(expected as u64);
        let g = decimal_string(got as u64);
        Err(concat(concat(concat("Expected ", e.as_str()).as_str(), " args, got ").as_str(), g.as_str()))
    }
}

// ── Arrays, strings and buffers ──

/// `arr.remove(index)`: removes the item at `index` when there is one, and
/// leaves the array as it is otherwise.
pub fn array_remove<T>(items: &mut Vec<T>, index: i64)
    ensures
        0 <= index < old(items)@.len() ==> final(items)@ == old(items)@.remove(index as int),
        !(0 <= index < old(items)@.len()) ==> final(items)@ == old(items)@,
{
    if index >= 0 && (index as u64) < (items.len() as u64) {
        items.remove(index as usize);
    }
}

/// `arr.len()`.
pub fn array_len<T>(items: &Vec<T>) -> (n: i64)
    requires
        items@.len() <= i64::MAX,
    ensures
        n == items@.len(),
{
    items.len() as i64
}

/// `s.len()`: the number of characters.
pub fn string_len(s: &str) -> (n: i64)
    requires
        s@.len() <= i64::MAX,
    ensures
        n == s@.len(),
{
    let cs = chars_of(s);
    cs.len() as i64
}

/// Whether `sub` occurs in `s` as a run of consecutive characters.
pub open spec fn occurs_in(sub: Seq<char>, s: Seq<char>) -> bool {
    exists|k: int| 0 <= k && k + sub.len() <= s.len() && #[trigger] s.subrange(k, k + sub.len()) == sub
}

/// The upper-case form of a string under Unicode's case mapping (what
/// `str::to_uppercase` answers).
pub uninterp spec fn unicode_upper(s: Seq<char>) -> Seq<char>;

/// The lower-case form of a string under Unicode's case mapping (what
/// `str::to_lowercase` answers).
pub uninterp spec fn unicode_lower(s: Seq<char>) -> Seq<char>;

/// Whether `sub` occurs in `s`.
fn str_contains(s: &str, sub: &str) -> (b: bool)
    ensures
        b == occurs_in(sub@, s@),
{
    let sv = chars_of(s);
    let pv = chars_of(sub);
    if pv.len() > sv.len() {
        return false;
    }
    let last = sv.len() - pv.len();
    let mut k: usize = 0;
    loop
        invariant
            sv@ == s@,
            pv@ == sub@,
            last == sv.len() - pv.len(),
            pv.len() <= sv.len(),
            k <= last,
            forall|i: int| 0 <= i < k ==> #[trigger] s@.subrange(i, i + sub@.len()) != sub@,
        decreases last - k,
    {
        if matches_at(&sv, &pv, k) {
            return true;
        }
        if k == last {
            return false;
        }
        k += 1;
    }
}

/// Calls `str::to_uppercase`; the contract names its answer.
#[verifier::external_body]
fn str_to_uppercase(s: &str) -> (r: String)
    ensures
        r@ == unicode_upper(s@),
{
    s.to_uppercase()
}

/// Calls `str::to_lowercase`; the contract names its answer.
#[verifier::external_body]
fn str_to_lowercase(s: &str) -> (r: String)
    ensures
        r@ == unicode_lower(s@),
{
    s.to_lowercase()
}

/// `s.contains(substr)`.
pub fn string_contains(s: &str, substr: &str) -> (b: bool)
    ensures
        b == occurs_in(substr@, s@),
{
    str_contains(s, substr)
}

/// `s.upper()`.
pub fn string_upper(s: &str) -> (r: String)
    ensures
        r@ == unicode_upper(s@),
{
    str_to_uppercase(s)
}

/// `s.lower()`.
pub fn string_lower(s: &str) -> (r: String)
    ensures
        r@ == unicode_lower(s@),
{
    str_to_lowercase(s)
}

/// `s.replace(from, to)`: every occurrence of `from`, left to right, becomes
/// `to` (an empty `from` puts `to` between all characters and at both ends).
pub fn string_replace(s: &str, from: &str, to: &str) -> (r: String)
    ensures
        r@ == crate::text::replace_all(s@, from@, to@),
{
    crate::text::str_replace(s, from, to)
}

pub const BUFFER_READ_ERROR: &'static str = "Buffer read error";

pub const BUFFER_WRITE_ERROR: &'static str = "Buffer write error";

/// The byte at `index`, when there is one.
pub open spec fn buffer_read_spec(bytes: Seq<u8>, index: int) -> Option<u8> {
    if 0 <= index < bytes.len() { Some(bytes[index]) } else { None }
}

/// The buffer after storing the low eight bits of `value` at `index`, when
/// there is such a byte.
pub open spec fn buffer_write_spec(bytes: Seq<u8>, index: int, value: int) -> Option<Seq<u8>> {
    if 0 <= index < bytes.len() { Some(bytes.update(index, (value % 256) as u8)) } else { None }
}

/// `alloc(size)`: a buffer of `size` zero bytes.
pub fn new_buffer(size: i64) -> (b: Vec<u8>)
    requires
        0 <= size <= usize::MAX,
    ensures
        b@.len() == size,
        forall|i: int| 0 <= i < size ==> b@[i] == 0,
{
    let n = size as usize;
    let mut b: Vec<u8> = Vec::new();
    let mut i: usize = 0;
    while i < n
        invariant
            i <= n,
            n == size,
            b@.len() == i,
            forall|j: int| 0 <= j < i ==> b@[j] == 0,
        decreases n - i,
    {
        b.push(0);
        i = i + 1;
    }
    b
}

/// `buf.read_u8(index)`: the byte at `index`, or an error when there is none.
pub fn buffer_read_u8(bytes: &Vec<u8>, index: i64) -> (r: Result<i64, String>)
    ensures
        match buffer_read_spec(bytes@, index as int) {
            Some(b) => r == Ok::<i64, String>(b as i64),
            None => r is Err && r->Err_0@ == BUFFER_READ_ERROR@,
        },
{
    if index >= 0 && (index as u64) < (bytes.len() as u64) {
        Ok(bytes[index as usize] as i64)
    } else {
        Err(owned(BUFFER_READ_ERROR))
    }
}

/// `buf.write_u8(index, value)`: stores the low eight bits of `value` at
/// `index`, or stops with an error (the buffer unchanged) when there is no
/// such byte.
pub fn buffer_write_u8(bytes: &mut Vec<u8>, index: i64, value: i64) -> (r: Result<(), String>)
    ensures
        match buffer_write_spec(old(bytes)@, index as int, value as int) {
            Some(after) => r is Ok && final(bytes)@ == after,
            None => r is Err && r->Err_0@ == BUFFER_WRITE_ERROR@ && final(bytes)@ == old(bytes)@,
        },
{
    if index >= 0 && (index as u64) < (bytes.len() as u64) {
        let m: i64 = value % 256;
        let low: i64 = if m < 0 { m + 256 } else { m };
        bytes.set(index as usize, low as u8);
        Ok(())
    } else {
        Err(owned(BUFFER_WRITE_ERROR))
    }
}

/// `buf.len()`.
pub fn buffer_len(bytes: &Vec<u8>) -> (n: i64)
    requires
        bytes@.len() <= i64::MAX,
    ensures
        n == bytes@.len(),
{
    bytes.len() as i64
}

// ── Native functions ──

/// The native functions, as a call by name selects them. Some names are
/// served by two entries of the table (`abs`, `type_of`, `assert`); the first
/// one wins. `min` and `max` take two integers or two floats.
#[derive(Debug, Clone, Copy, PartialEq, Eq, Structural)]
pub enum NativeOp {
    Print,
    Sin,
    Tan,
    Asin,
    Acos,
    Atan,
    Pow,
    Sqrt,
    FloatAbs,
    Floor,
    Ceil,
    Round,
    Cos,
    TypeOf,
    Assert,
    Time,
    Sleep,
    ReadText,
    WriteText,
    Exists,
    Alloc,
    StringLen,
    StringUpper,
    StringLower,
    StringReplace,
    StringContains,
    ArrayLen,
    ArrayPush,
    ArrayPop,
    ArrayClear,
    ArrayRemove,
    IntToString,
    IntAbs,
    FloatToString,
    BoolToString,
    Vec2New,
    Vec3New,
    Vec4New,
    Vec2ToString,
    Vec3ToString,
    Vec4ToString,
    MathMax,
    MathMin,
    BufferRead,
    BufferWrite,
    BufferLen,
    SignalConnect,
    SignalEmit,
    TaskResume,
    SystemTypeOf,
    SystemAssert,
    Unknown,
}

/// Which native function a call by `name` runs: the first entry of the table
/// that lists the name.
pub open spec fn native_op_spec(name: Seq<char>) -> NativeOp {
    if name == "__native_print"@ || name == "__native_console_print"@ || name == "print"@ || name == "log"@ {
        NativeOp::Print
    } else if name == "sin"@ {
        NativeOp::Sin
    } else if name == "tan"@ {
        NativeOp::Tan
    } else if name == "asin"@ {
        NativeOp::Asin
    } else if name == "acos"@ {
        NativeOp::Acos
    } else if name == "atan"@ {
        NativeOp::Atan
    } else if name == "pow"@ {
        NativeOp::Pow
    } else if name == "sqrt"@ {
        NativeOp::Sqrt
    } else if name == "abs"@ {
        NativeOp::FloatAbs
    } else if name == "min"@ {
        NativeOp::MathMin
    } else if name == "floor"@ {
        NativeOp::Floor
    } else if name == "ceil"@ {
        NativeOp::Ceil
    } else if name == "round"@ {
        NativeOp::Round
    } else if name == "cos"@ {
        NativeOp::Cos
    } else if name == "max"@ {
        NativeOp::MathMax
    } else if name == "type_of"@ {
        NativeOp::TypeOf
    } else if name == "assert"@ {
        NativeOp::Assert
    } else if name == "time"@ {
        NativeOp::Time
    } else if name == "sleep"@ {
        NativeOp::Sleep
    } else if name == "read_text"@ {
        NativeOp::ReadText
    } else if name == "write_text"@ {
        NativeOp::WriteText
    } else if name == "exists"@ {
        NativeOp::Exists
    } else if name == "alloc"@ {
        NativeOp::Alloc
    } else if name == "__native_string_len"@ {
        NativeOp::StringLen
    } else if name == "__native_string_upper"@ {
        NativeOp::StringUpper
    } else if name == "__native_string_lower"@ {
        NativeOp::StringLower
    } else if name == "__native_string_replace"@ {
        NativeOp::StringReplace
    } else if name == "__native_string_contains"@ {
        NativeOp::StringContains
    } else if name == "__native_array_len"@ {
        NativeOp::ArrayLen
    } else if name == "__native_array_push"@ {
        NativeOp::ArrayPush
    } else if name == "__native_array_pop"@ {
        NativeOp::ArrayPop
    } else if name == "__native_array_clear"@ {
        NativeOp::ArrayClear
    } else if name == "__native_array_remove"@ {
        NativeOp::ArrayRemove
    } else if name == "__native_int_to_string"@ {
        NativeOp::IntToString
    } else if name == "__native_int_abs"@ {
        NativeOp::IntAbs
    } else if name == "__native_float_to_string"@ {
        NativeOp::FloatToString
    } else if name == "__native_bool_to_string"@ {
        NativeOp::BoolToString
    } else if name == "__native_vec2_constructor"@ || name == "vec2"@ {
        NativeOp::Vec2New
    } else if name == "__native_vec3_constructor"@ || name == "vec3"@ {
        NativeOp::Vec3New
    } else if name == "__native_vec4_constructor"@ || name == "vec4"@ {
        NativeOp::Vec4New
    } else if name == "__native_vec2_to_string"@ {
        NativeOp::Vec2ToString
    } else if name == "__native_vec3_to_string"@ {
        NativeOp::Vec3ToString
    } else if name == "__native_vec4_to_string"@ {
        NativeOp::Vec4ToString
    } else if name == "__native_math_max"@ {
        NativeOp::MathMax
    } else if name == "__native_math_min"@ {
        NativeOp::MathMin
    } else if name == "__native_buffer_read_u8"@ {
        NativeOp::BufferRead
    } else if name == "__native_buffer_write_u8"@ {
        NativeOp::BufferWrite
    } else if name == "__native_buffer_len"@ {
        NativeOp::BufferLen
    } else if name == "__native_signal_connect"@ {
        NativeOp::SignalConnect
    } else if name == "__native_signal_emit"@ {
        NativeOp::SignalEmit
    } else if name == "__native_task_resume"@ {
        NativeOp::TaskResume
    } else if name == "__native_system_type_of"@ {
        NativeOp::SystemTypeOf
    } else if name == "__native_system_assert"@ {
        NativeOp::SystemAssert
    } else {
        NativeOp::Unknown
    }
}

pub fn native_op(name: &str) -> (op: NativeOp)
    ensures
        op == native_op_spec(name@),
{
    if str_eq(name, "__native_print") || str_eq(name, "__native_console_print") || str_eq(name, "print") || str_eq(name, "log") {
        NativeOp::Print
    } else if str_eq(name, "sin") {
        NativeOp::Sin
    } else if str_eq(name, "tan") {
        NativeOp::Tan
    } else if str_eq(name, "asin") {
        NativeOp::Asin
    } else if str_eq(name, "acos") {
        NativeOp::Acos
    } else if str_eq(name, "atan") {
        NativeOp::Atan
    } else if str_eq(name, "pow") {
        NativeOp::Pow
    } else if str_eq(name, "sqrt") {
        NativeOp::Sqrt
    } else if str_eq(name, "abs") {
        NativeOp::FloatAbs
    } else if str_eq(name, "min") {
        NativeOp::MathMin
    } else if str_eq(name, "floor") {
        NativeOp::Floor
    } else if str_eq(name, "ceil") {
        NativeOp::Ceil
    } else if str_eq(name, "round") {
        NativeOp::Round
    } else if str_eq(name, "cos") {
        NativeOp::Cos
    } else if str_eq(name, "max") {
        NativeOp::MathMax
    } else if str_eq(name, "type_of") {
        NativeOp::TypeOf
    } else if str_eq(name, "assert") {
        NativeOp::Assert
    } else if str_eq(name, "time") {
        NativeOp::Time
    } else if str_eq(name, "sleep") {
        NativeOp::Sleep
    } else if str_eq(name, "read_text") {
        NativeOp::ReadText
    } else if str_eq(name, "write_text") {
        NativeOp::WriteText
    } else if str_eq(name, "exists") {
        NativeOp::Exists
    } else if str_eq(name, "alloc") {
        NativeOp::Alloc
    } else if str_eq(name, "__native_string_len") {
        NativeOp::StringLen
    } else if str_eq(name, "__native_string_upper") {
        NativeOp::StringUpper
    } else if str_eq(name, "__native_string_lower") {
        NativeOp::StringLower
    } else if str_eq(name, "__native_string_replace") {
        NativeOp::StringReplace
    } else if str_eq(name, "__native_string_contains") {
        NativeOp::StringContains
    } else if str_eq(name, "__native_array_len") {
        NativeOp::ArrayLen
    } else if str_eq(name, "__native_array_push") {
        NativeOp::ArrayPush
    } else if str_eq(name, "__native_array_pop") {
        NativeOp::ArrayPop
    } else if str_eq(name, "__native_array_clear") {
        NativeOp::ArrayClear
    } else if str_eq(name, "__native_array_remove") {
        NativeOp::ArrayRemove
    } else if str_eq(name, "__native_int_to_string") {
        NativeOp::IntToString
    } else if str_eq(name, "__native_int_abs") {
        NativeOp::IntAbs
    } else if str_eq(name, "__native_float_to_string") {
        NativeOp::FloatToString
    } else if str_eq(name, "__native_bool_to_string") {
        NativeOp::BoolToString
    } else if str_eq(name, "__native_vec2_constructor") || str_eq(name, "vec2") {
        NativeOp::Vec2New
    } else if str_eq(name, "__native_vec3_constructor") || str_eq(name, "vec3") {
        NativeOp::Vec3New
    } else if str_eq(name, "__native_vec4_constructor") || str_eq(name, "vec4") {
        NativeOp::Vec4New
    } else if str_eq(name, "__native_vec2_to_string") {
        NativeOp::Vec2ToString
    } else if str_eq(name, "__native_vec3_to_string") {
        NativeOp::Vec3ToString
    } else if str_eq(name, "__native_vec4_to_string") {
        NativeOp::Vec4ToString
    } else if str_eq(name, "__native_math_max") {
        NativeOp::MathMax
    } else if str_eq(name, "__native_math_min") {
        NativeOp::MathMin
    } else if str_eq(name, "__native_buffer_read_u8") {
        NativeOp::BufferRead
    } else if str_eq(name, "__native_buffer_write_u8") {
        NativeOp::BufferWrite
    } else if str_eq(name, "__native_buffer_len") {
        NativeOp::BufferLen
    } else if str_eq(name, "__native_signal_connect") {
        NativeOp::SignalConnect
    } else if str_eq(name, "__native_signal_emit") {
        NativeOp::SignalEmit
    } else if str_eq(name, "__native_task_resume") {
        NativeOp::TaskResume
    } else if str_eq(name, "__native_system_type_of") {
        NativeOp::SystemTypeOf
    } else if str_eq(name, "__native_system_assert") {
        NativeOp::SystemAssert
    } else {
        NativeOp::Unknown
    }
}

/// The error for a name no native function has.
pub fn unknown_native(name: &str) -> (s: String)
    ensures
        s@ == "Unknown native: "@ + name@,
{
    concat("Unknown native: ", name)
}

/// The type name of a kind of value, as `type_of` and `std.system.type_of`
/// both give it: the language's type names, and "unknown" for signals,
/// tasks, return values and void, which name no type.
pub open spec fn type_name_spec(k: ValueKind) -> Seq<char> {
    match k {
        ValueKind::Int => "int"@,
        ValueKind::Float => "float"@,
        ValueKind::String => "string"@,
        ValueKind::Bool => "bool"@,
        ValueKind::Array => "array"@,
        ValueKind::Vec2 => "vec2"@,
        ValueKind::Vec3 => "vec3"@,
        ValueKind::Vec4 => "vec4"@,
        ValueKind::Function => "func"@,
        ValueKind::Object => "object"@,
        ValueKind::Buffer => "buffer"@,
        ValueKind::Tensor => "tensor"@,
        ValueKind::Signal => "unknown"@,
        ValueKind::Task => "unknown"@,
        ValueKind::ReturnValue => "unknown"@,
        ValueKind::Void => "unknown"@,
    }
}

/// The type name of a kind of value.
pub fn value_type_name(k: ValueKind) -> (r: String)
    ensures
        r@ == type_name_spec(k),
{
    owned(match k {
        ValueKind::Int => "int",
        ValueKind::Float => "float",
        ValueKind::String => "string",
        ValueKind::Bool => "bool",
        ValueKind::Array => "array",
        ValueKind::Vec2 => "vec2",
        ValueKind::Vec3 => "vec3",
        ValueKind::Vec4 => "vec4",
        ValueKind::Function => "func",
        ValueKind::Object => "object",
        ValueKind::Buffer => "buffer",
        ValueKind::Tensor => "tensor",
        ValueKind::Signal => "unknown",
        ValueKind::Task => "unknown",
        ValueKind::ReturnValue => "unknown",
        ValueKind::Void => "unknown",
    })
}

/// `type_of(x)` for a value of kind `arg` (none when no argument was passed).
pub fn kind_type_name(arg: Option<ValueKind>) -> (r: Result<String, String>)
    ensures
        match arg {
            Some(k) => r is Ok && r->Ok_0@ == type_name_spec(k),
            None => r is Err && r->Err_0@ == "Expected 1 argument"@,
        },
{
    match arg {
        Some(k) => Ok(value_type_name(k)),
        None => Err(owned("Expected 1 argument")),
    }
}

/// `std.system.type_of(x)` for a value of kind `arg`.
pub fn system_type_name(arg: Option<ValueKind>) -> (r: Result<String, String>)
    ensures
        match arg {
            Some(k) => r is Ok && r->Ok_0@ == type_name_spec(k),
            None => r is Err && r->Err_0@ == "Err"@,
        },
{
    match arg {
        Some(k) => Ok(value_type_name(k)),
        None => Err(owned("Err")),
    }
}

/// `assert(c)`: passes on `true`; fails on `false`, or when the argument is
/// not a truth value. `arg` is the argument when it is one. The standard
/// library's `std.system.assert` says so in other words.
pub fn check_assertion(arg: Option<bool>, system: bool) -> (r: Result<(), String>)
    ensures
        arg == Some(true) <==> r is Ok,
        r is Err ==> r->Err_0@ == (if arg == Some(false) {
            if system { "Assertion failed!"@ } else { "Assertion failed"@ }
        } else {
            if system { "Err"@ } else { "Expected bool"@ }
        }),
{
    match arg {
        Some(true) => Ok(()),
        Some(false) => Err(owned(if system { "Assertion failed!" } else { "Assertion failed" })),
        None => Err(owned(if system { "Err" } else { "Expected bool" })),
    }
}

// ── Declarations and control flow ──

/// What evaluating a declaration does, by its type: declare a function, an
/// object (also `struct` and `behaviour`), an enum, a signal or a task; run a
/// control construct; or bind a value.
#[derive(Debug, Clone, Copy, PartialEq, Eq, Structural)]
pub enum DeclForm {
    Func,
    Object,
    Enum,
    Signal,
    Task,
    If,
    Elif,
    Else,
    For,
    While,
    Return,
    Import,
    Value,
}

pub open spec fn declaration_form_spec(t: TypeExpr) -> DeclForm {
    match t {
        TypeExpr::Named(n) => {
            let n = n@;
            if n == "func"@ {
                DeclForm::Func
            } else if n == "object"@ || n == "struct"@ || n == "behaviour"@ {
                DeclForm::Object
            } else if n == "enum"@ {
                DeclForm::Enum
            } else if n == "signal"@ {
                DeclForm::Signal
            } else if n == "task"@ {
                DeclForm::Task
            } else if n == "if"@ {
                DeclForm::If
            } else if n == "elif"@ {
                DeclForm::Elif
            } else if n == "else"@ {
                DeclForm::Else
            } else if n == "for"@ {
                DeclForm::For
            } else if n == "while"@ {
                DeclForm::While
            } else if n == "return"@ {
                DeclForm::Return
            } else if n == "import"@ {
                DeclForm::Import
            } else {
                DeclForm::Value
            }
        },
        TypeExpr::Array(_) => DeclForm::Value,
    }
}

pub fn declaration_form(t: &TypeExpr) -> (f: DeclForm)
    ensures
        f == declaration_form_spec(*t),
{
    match t {
        TypeExpr::Named(n) => {
            let n = n.as_str();
            if str_eq(n, "func") {
                DeclForm::Func
            } else if str_eq(n, "object") || str_eq(n, "struct") || str_eq(n, "behaviour") {
                DeclForm::Object
            } else if str_eq(n, "enum") {
                DeclForm::Enum
            } else if str_eq(n, "signal") {
                DeclForm::Signal
            } else if str_eq(n, "task") {
                DeclForm::Task
            } else if str_eq(n, "if") {
                DeclForm::If
            } else if str_eq(n, "elif") {
                DeclForm::Elif
            } else if str_eq(n, "else") {
                DeclForm::Else
            } else if str_eq(n, "for") {
                DeclForm::For
            } else if str_eq(n, "while") {
                DeclForm::While
            } else if str_eq(n, "return") {
                DeclForm::Return
            } else if str_eq(n, "import") {
                DeclForm::Import
            } else {
                DeclForm::Value
            }
        },
        TypeExpr::Array(_) => DeclForm::Value,
    }
}

/// The value a declaration without `: value` (and whose type names no object
/// blueprint) starts with.
#[derive(Debug, Clone, Copy, PartialEq, Eq, Structural)]
pub enum DefaultValue {
    /// `0`
    Int,
    /// `0.0`
    Float,
    /// the empty string
    Str,
    /// `false`
    Bool,
    /// a vector of this dimension, from the float arguments (missing ones 0.0)
    Vector(usize),
    /// an empty object, for a declaration with content
    Object,
    /// `void`
    Void,
}

pub open spec fn default_value_spec(t: TypeExpr, has_content: bool) -> DefaultValue {
    let other = if has_content { DefaultValue::Object } else { DefaultValue::Void };
    match t {
        TypeExpr::Named(n) => {
            let n = n@;
            if n == "int"@ {
                DefaultValue::Int
            } else if n == "float"@ {
                DefaultValue::Float
            } else if n == "string"@ {
                DefaultValue::Str
            } else if n == "bool"@ {
                DefaultValue::Bool
            } else if n == "vec2"@ {
                DefaultValue::Vector(2)
            } else if n == "vec3"@ {
                DefaultValue::Vector(3)
            } else if n == "vec4"@ {
                DefaultValue::Vector(4)
            } else {
                other
            }
        },
        TypeExpr::Array(_) => other,
    }
}

pub fn default_value(t: &TypeExpr, has_content: bool) -> (v: DefaultValue)
    ensures
        v == default_value_spec(*t, has_content),
{
    let other = if has_content { DefaultValue::Object } else { DefaultValue::Void };
    match t {
        TypeExpr::Named(n) => {
            let n = n.as_str();
            if str_eq(n, "int") {
                DefaultValue::Int
            } else if str_eq(n, "float") {
                DefaultValue::Float
            } else if str_eq(n, "string") {
                DefaultValue::Str
            } else if str_eq(n, "bool") {
                DefaultValue::Bool
            } else if str_eq(n, "vec2") {
                DefaultValue::Vector(2)
            } else if str_eq(n, "vec3") {
                DefaultValue::Vector(3)
            } else if str_eq(n, "vec4") {
                DefaultValue::Vector(4)
            } else {
                other
            }
        },
        TypeExpr::Array(_) => other,
    }
}

/// The parts of an `if` / `elif` / `else` chain.
#[derive(Debug, Clone, Copy, PartialEq, Eq, Structural)]
pub enum BranchKind {
    If,
    Elif,
    Else,
}

/// Whether a branch evaluates its condition, given whether an earlier branch
/// of the chain ran: `if` always, `elif` only when none ran, `else` never.
pub open spec fn branch_checks_condition_spec(kind: BranchKind, earlier_ran: bool) -> bool {
    match kind {
        BranchKind::If => true,
        BranchKind::Elif => !earlier_ran,
        BranchKind::Else => false,
    }
}

/// Whether a branch runs its content, and whether (for the branches after
/// it) a branch of the chain has run: an `if` runs when its condition is
/// `true` and starts the chain afresh; an `elif` runs when no earlier branch
/// ran and its condition is `true`; an `else` runs when no earlier branch ran.
pub open spec fn branch_step_spec(kind: BranchKind, earlier_ran: bool, condition: bool) -> (bool, bool) {
    match kind {
        BranchKind::If => (condition, condition),
        BranchKind::Elif => if earlier_ran { (false, true) } else { (condition, condition) },
        BranchKind::Else => (!earlier_ran, earlier_ran),
    }
}

pub fn branch_checks_condition(kind: BranchKind, earlier_ran: bool) -> (b: bool)
    ensures
        b == branch_checks_condition_spec(kind, earlier_ran),
{
    match kind {
        BranchKind::If => true,
        BranchKind::Elif => !earlier_ran,
        BranchKind::Else => false,
    }
}

/// `condition` is whether the branch's condition was `true` (ignored where it
/// is not evaluated).
pub fn branch_step(kind: BranchKind, earlier_ran: bool, condition: bool) -> (r: (bool, bool))
    ensures
        r == branch_step_spec(kind, earlier_ran, condition),
{
    match kind {
        BranchKind::If => (condition, condition),
        BranchKind::Elif => if earlier_ran { (false, true) } else { (condition, condition) },
        BranchKind::Else => (!earlier_ran, earlier_ran),
    }
}

/// The names an enum declares: each bare identifier of its content, in order.
pub open spec fn enum_names(ns: Seq<Node>) -> Seq<Seq<char>>
    decreases ns.len(),
{
    if ns.len() == 0 {
        seq![]
    } else {
        let rest = enum_names(ns.drop_last());
        match ns.last() {
            Node::ExprStmt(Expr::Identifier(n, _)) => rest.push(n@),
            _ => rest,
        }
    }
}

/// The members of an enum: each of its names with its position among them.
pub fn enum_members(content: &Vec<Node>) -> (r: Vec<(String, i64)>)
    requires
        content@.len() <= i64::MAX,
    ensures
        r@.len() == enum_names(content@).len(),
        forall|k: int| 0 <= k < r@.len() ==> (#[trigger] r@[k]).0@ == enum_names(content@)[k] && r@[k].1 == k,
{
    let mut r: Vec<(String, i64)> = Vec::new();
    let mut index: i64 = 0;
    let mut i: usize = 0;
    assert(content@.take(0) =~= Seq::<Node>::empty());
    while i < content.len()
        invariant
            i <= content@.len(),
            content@.len() <= i64::MAX,
            index == r@.len(),
            r@.len() <= i,
            r@.len() == enum_names(content@.take(i as int)).len(),
            forall|k: int| 0 <= k < r@.len() ==> (#[trigger] r@[k]).0@ == enum_names(content@.take(i as int))[k] && r@[k].1 == k,
        decreases content@.len() - i,
    {
        assert(content@.take(i + 1).drop_last() =~= content@.take(i as int));
        assert(content@.take(i + 1).last() == content@[i as int]);
        if let Node::ExprStmt(Expr::Identifier(name, _)) = &content[i] {
            r.push((name.clone(), index));
            index = index + 1;
        }
        i = i + 1;
    }
    assert(content@.take(content@.len() as int) =~= content@);
    assert(enum_names(content@.take(i as int)) == enum_names(content@));
    assert forall|k: int| 0 <= k < r@.len() implies (#[trigger] r@[k]).0@ == enum_names(content@)[k] && r@[k].1 == k by {
        assert(r@[k].0@ == enum_names(content@.take(i as int))[k]);
    }
    r
}

/// Where an imported module's source comes from.
#[derive(Debug)]
pub enum ModuleSource {
    /// the standard library built into the evaluator
    Std,
    /// the file at this path
    File(String),
}

/// `import m`: the standard library for `std`, the file `m.vs` otherwise; a
/// module needs a name.
pub fn import_source(name: &str) -> (r: Result<ModuleSource, String>)
    ensures
        name@.len() == 0 ==> r is Err && r->Err_0@ == "Import requires a module name"@,
        name@.len() > 0 && name@ == "std"@ ==> r matches Ok(ModuleSource::Std),
        name@.len() > 0 && name@ != "std"@ ==> (r matches Ok(ModuleSource::File(path)) && path@ == name@ + ".vs"@),
{
    proof {
        reveal_strlit("");
        if name@.len() == 0 {
            assert(name@ =~= ""@);
        }
    }
    if str_eq(name, "") {
        return Err(owned("Import requires a module name"));
    }
    if str_eq(name, "std") {
        Ok(ModuleSource::Std)
    } else {
        Ok(ModuleSource::File(concat(name, ".vs")))
    }
}

// ── Laws ──

/// A byte read back after a write is the low eight bits of the value written;
/// every other byte reads as before, and a write out of bounds changes nothing.
pub proof fn lemma_buffer_read_after_write(bytes: Seq<u8>, index: int, value: int, at: int)
    ensures
        buffer_write_spec(bytes, index, value) matches Some(after) ==> buffer_read_spec(after, at) == (if at == index {
            Some((value % 256) as u8)
        } else {
            buffer_read_spec(bytes, at)
        }),
        buffer_write_spec(bytes, index, value) is None <==> buffer_read_spec(bytes, index) is None,
{
}

/// Integer division and remainder go together: `(a / b) * b + a % b == a`,
/// the remainder is smaller than the divisor in size and never has the
/// opposite sign of `a`.
pub proof fn lemma_div_rem(a: int, b: int)
    requires
        b != 0,
    ensures
        trunc_div(a, b) * b + trunc_rem(a, b) == a,
        abs(trunc_rem(a, b)) < abs(b),
        a >= 0 ==> trunc_rem(a, b) >= 0,
        a < 0 ==> trunc_rem(a, b) <= 0,
{
    let x = abs(a);
    let d = abs(b);
    assert(x == d * (x / d) + x % d && 0 <= x % d < d) by (nonlinear_arith)
        requires
            d > 0,
            x >= 0,
    ;
    if a < 0 && b < 0 {
        assert(trunc_div(a, b) * b == (x / d) * (-d));
        assert((x / d) * (-d) == -(d * (x / d))) by (nonlinear_arith);
    } else if a < 0 {
        assert(trunc_div(a, b) * b == -(x / d) * d);
        assert(-(x / d) * d == -(d * (x / d))) by (nonlinear_arith);
    } else if b < 0 {
        assert(trunc_div(a, b) * b == -(x / d) * (-d));
        assert(-(x / d) * (-d) == d * (x / d)) by (nonlinear_arith);
    } else {
        assert(trunc_div(a, b) * b == (x / d) * d);
        assert((x / d) * d == d * (x / d)) by (nonlinear_arith);
    }
}

/// A negative index counts from the back: `-1` is the last item, and `k - len`
/// selects what `k` selects.
pub proof fn lemma_index_from_back(len: int, k: int)
    requires
        0 <= k < len,
    ensures
        index_slot_spec(len, k) == Some(k),
        index_slot_spec(len, k - len) == Some(k),
{
}

/// The branches a chain runs: `kinds` in order, each with whether its
/// condition holds, starting with no branch run.
pub open spec fn chain_runs(kinds: Seq<BranchKind>, conds: Seq<bool>, earlier_ran: bool) -> Seq<bool>
    decreases kinds.len(),
{
    if kinds.len() == 0 || conds.len() == 0 {
        seq![]
    } else {
        let (run, ran) = branch_step_spec(kinds[0], earlier_ran, conds[0]);
        seq![run].add(chain_runs(kinds.drop_first(), conds.drop_first(), ran))
    }
}

/// `n` `elif` branches.
pub open spec fn elif_kinds(n: nat) -> Seq<BranchKind> {
    Seq::new(n, |i: int| BranchKind::Elif)
}

/// `elif` branches after an earlier run never run; otherwise the first whose
/// condition holds runs, and only it.
proof fn lemma_elifs_run(n: nat, conds: Seq<bool>, earlier_ran: bool)
    requires
        conds.len() == n,
    ensures
        chain_runs(elif_kinds(n), conds, earlier_ran).len() == n,
        forall|i: int| 0 <= i < n ==> #[trigger] chain_runs(elif_kinds(n), conds, earlier_ran)[i]
            == (!earlier_ran && conds[i] && forall|j: int| 0 <= j < i ==> !conds[j]),
    decreases n,
{
    let kinds = elif_kinds(n);
    if n > 0 {
        let (run, ran) = branch_step_spec(kinds[0], earlier_ran, conds[0]);
        assert(kinds.drop_first() =~= elif_kinds((n - 1) as nat));
        lemma_elifs_run((n - 1) as nat, conds.drop_first(), ran);
        let rest = chain_runs(kinds.drop_first(), conds.drop_first(), ran);
        assert forall|i: int| 0 <= i < n implies #[trigger] chain_runs(kinds, conds, earlier_ran)[i]
            == (!earlier_ran && conds[i] && forall|j: int| 0 <= j < i ==> !conds[j]) by {
            if i > 0 {
                assert(chain_runs(kinds, conds, earlier_ran)[i] == rest[i - 1]);
                if (forall|j: int| 0 <= j < i - 1 ==> !conds.drop_first()[j]) {
                    assert forall|j: int| 1 <= j < i implies !conds[j] by {
                        assert(conds[j] == conds.drop_first()[j - 1]);
                    }
                }
                if (forall|j: int| 0 <= j < i ==> !conds[j]) {
                    assert forall|j: int| 0 <= j < i - 1 implies !conds.drop_first()[j] by {
                        assert(conds.drop_first()[j] == conds[j + 1]);
                    }
                }
                assert(conds.drop_first()[i - 1] == conds[i]);
            }
        }
    }
}

/// An `if` with `elif`s and an `else` runs exactly one branch: the first
/// whose condition holds, or the `else` when none holds (so long as nothing
/// run in between resets the chain). `conds[0]` is the `if`'s condition,
/// `conds[1..]` those of the `elif`s, and the last entry stands for the
/// `else` (its value is not consulted).
pub proof fn lemma_if_chain_runs_one(conds: Seq<bool>)
    requires
        conds.len() >= 2,
    ensures
        ({
            let n = conds.len();
            let kinds = seq![BranchKind::If] + elif_kinds((n - 2) as nat) + seq![BranchKind::Else];
            let runs = chain_runs(kinds, conds, false);
            &&& runs.len() == n
            &&& forall|i: int| 0 <= i < n - 1 ==> #[trigger] runs[i] == (conds[i] && forall|j: int| 0 <= j < i ==> !conds[j])
            &&& runs[n - 1] == (forall|j: int| 0 <= j < n - 1 ==> !conds[j])
        }),
{
    let n = conds.len();
    let m = (n - 2) as nat;
    let elifs = elif_kinds(m);
    let kinds = seq![BranchKind::If] + elifs + seq![BranchKind::Else];
    let (run0, ran0) = branch_step_spec(BranchKind::If, false, conds[0]);
    assert(kinds[0] == BranchKind::If);
    assert(kinds.drop_first() =~= elifs + seq![BranchKind::Else]);
    let tail = conds.drop_first();
    lemma_chain_split(elifs, seq![BranchKind::Else], tail, ran0);
    lemma_elifs_run(m, tail.take(m as int), ran0);
    let runs = chain_runs(kinds, conds, false);
    let mid = chain_runs(elifs, tail.take(m as int), ran0);
    let last_ran = chain_ran(elifs, tail.take(m as int), ran0);
    lemma_chain_ran(m, tail.take(m as int), ran0);
    assert(runs =~= seq![run0] + mid + chain_runs(seq![BranchKind::Else], tail.skip(m as int), last_ran));
    assert forall|i: int| 0 <= i < n - 1 implies #[trigger] runs[i] == (conds[i] && forall|j: int| 0 <= j < i ==> !conds[j]) by {
        if i > 0 {
            assert(runs[i] == mid[i - 1]);
            assert(tail.take(m as int)[i - 1] == conds[i]);
            if conds[0] {
                assert(!(forall|j: int| 0 <= j < i ==> !conds[j]));
            } else {
                if (forall|j: int| 0 <= j < i - 1 ==> !tail.take(m as int)[j]) {
                    assert forall|j: int| 0 <= j < i implies !conds[j] by {
                        if j > 0 {
                            assert(conds[j] == tail.take(m as int)[j - 1]);
                        }
                    }
                }
                if (forall|j: int| 0 <= j < i ==> !conds[j]) {
                    assert forall|j: int| 0 <= j < i - 1 implies !tail.take(m as int)[j] by {
                        assert(tail.take(m as int)[j] == conds[j + 1]);
                    }
                }
            }
        }
    }
    let last = chain_runs(seq![BranchKind::Else], tail.skip(m as int), last_ran);
    assert(seq![BranchKind::Else].drop_first() =~= Seq::<BranchKind>::empty());
    assert(last =~= seq![!last_ran]) by {
        reveal_with_fuel(chain_runs, 2);
    }
    assert(runs.len() == n);
    assert(runs[n - 1] == !last_ran);
    if last_ran {
        if conds[0] {
        } else {
            let w = choose|j: int| 0 <= j < m && tail.take(m as int)[j];
            assert(conds[w + 1]);
        }
    } else {
        assert forall|j: int| 0 <= j < n - 1 implies !conds[j] by {
            if j > 0 {
                assert(conds[j] == tail.take(m as int)[j - 1]);
            }
        }
    }
    assert(runs[n - 1] == (forall|j: int| 0 <= j < n - 1 ==> !conds[j]));
}

/// Whether a branch of the chain has run once `kinds` are done.
pub open spec fn chain_ran(kinds: Seq<BranchKind>, conds: Seq<bool>, earlier_ran: bool) -> bool
    decreases kinds.len(),
{
    if kinds.len() == 0 || conds.len() == 0 {
        earlier_ran
    } else {
        let (run, ran) = branch_step_spec(kinds[0], earlier_ran, conds[0]);
        chain_ran(kinds.drop_first(), conds.drop_first(), ran)
    }
}

proof fn lemma_chain_ran(n: nat, conds: Seq<bool>, earlier_ran: bool)
    requires
        conds.len() == n,
    ensures
        chain_ran(elif_kinds(n), conds, earlier_ran)
            == (earlier_ran || exists|j: int| 0 <= j < n && conds[j]),
    decreases n,
{
    let kinds = elif_kinds(n);
    if n > 0 {
        let (run, ran) = branch_step_spec(kinds[0], earlier_ran, conds[0]);
        assert(kinds.drop_first() =~= elif_kinds((n - 1) as nat));
        lemma_chain_ran((n - 1) as nat, conds.drop_first(), ran);
        if exists|j: int| 0 <= j < n - 1 && conds.drop_first()[j] {
            let w = choose|j: int| 0 <= j < n - 1 && conds.drop_first()[j];
            assert(conds[w + 1]);
        }
        if exists|j: int| 0 <= j < n && conds[j] {
            let w = choose|j: int| 0 <= j < n && conds[j];
            if w > 0 {
                assert(conds.drop_first()[w - 1]);
            }
        }
    }
}

/// A chain over `a + b` runs the branches of `a`, then those of `b` from
/// where `a` left off.
proof fn lemma_chain_split(a: Seq<BranchKind>, b: Seq<BranchKind>, conds: Seq<bool>, earlier_ran: bool)
    requires
        conds.len() == a.len() + b.len(),
    ensures
        chain_runs(a + b, conds, earlier_ran) == chain_runs(a, conds.take(a.len() as int), earlier_ran)
            + chain_runs(b, conds.skip(a.len() as int), chain_ran(a, conds.take(a.len() as int), earlier_ran)),
    decreases a.len(),
{
    if a.len() == 0 {
        assert(a + b =~= b);
        assert(conds.skip(0) =~= conds);
    } else {
        let (run, ran) = branch_step_spec(a[0], earlier_ran, conds[0]);
        assert((a + b).drop_first() =~= a.drop_first() + b);
        assert(conds.take(a.len() as int).drop_first() =~= conds.drop_first().take(a.len() - 1));
        assert(conds.skip(a.len() as int) =~= conds.drop_first().skip(a.len() - 1));
        lemma_chain_split(a.drop_first(), b, conds.drop_first(), ran);
        assert(chain_runs(a + b, conds, earlier_ran) =~= seq![run].add(chain_runs((a + b).drop_first(), conds.drop_first(), ran)));
    }
}

} // verus!
