//! Tokens: the atoms that the scanner produces.

use vstd::prelude::*;
use crate::lexer::rules::{KindView, kind_view};
use crate::text::{concat, decimal_string, decimal, owned};
use crate::analyzer::eval::{int_text, int_string};

verus! {

/// Pinpoints a token in source code for error messages.
#[derive(Debug, Clone, Copy, PartialEq, Eq, Structural)]
pub struct Span {
    /// Byte offset of the token's first character from the start of the file
    /// (UTF-8).
    pub start: usize,
    /// Byte offset just past the token's last character.
    pub end: usize,
    /// 1-indexed line of the first character.
    pub line: u32,
    /// 1-indexed column of the first character, counted in characters.
    pub column: u32,
}

impl Default for Span {
    fn default() -> (s: Self)
        ensures
            s == (Span { start: 0, end: 0, line: 0, column: 0 }),
    {
        Span { start: 0, end: 0, line: 0, column: 0 }
    }
}

impl Span {
    /// The all-zero span.
    pub open spec fn zero() -> Span {
        Span { start: 0, end: 0, line: 0, column: 0 }
    }
}

/// A single lexical token with its source location.
#[derive(Debug, Clone, PartialEq)]
pub struct Token {
    pub kind: TokenKind,
    /// Raw source text.
    pub lexeme: String,
    pub span: Span,
}

/// What a token is. A float literal keeps its decimal text (digits, a dot,
/// digits); whoever needs the number reads it from that text.
#[derive(Debug, Clone, PartialEq)]
pub enum TokenKind {
    /// end of a logical line
    Newline,
    /// indentation level increased
    Indent,
    /// indentation level decreased
    Dedent,
    /// 42, 7
    IntLiteral(i64),
    /// 3.14, kept as its decimal text
    FloatLiteral(String),
    /// "hello world"
    StringLiteral(String),
    /// true, false
    BoolLiteral(bool),
    /// age, MainScreen, Vector3
    Identifier(String),
    KwInt,
    KwFloat,
    KwString,
    KwBool,
    KwStruct,
    KwObject,
    KwBehaviour,
    KwFunc,
    KwBuffer,
    KwRef,
    KwEnum,
    KwTask,
    KwSignal,
    KwVec2,
    KwVec3,
    KwVec4,
    KwMat2,
    KwMat3,
    KwMat4,
    KwTensor,
    KwConst,
    KwExport,
    KwExclude,
    KwUses,
    KwImport,
    KwFrom,
    KwIf,
    KwElse,
    KwElif,
    KwFor,
    KwWhile,
    KwIn,
    KwReturn,
    Plus,
    Minus,
    Star,
    Slash,
    Percent,
    Equal,
    PlusEqual,
    MinusEqual,
    StarEqual,
    SlashEqual,
    EqualEqual,
    BangEqual,
    Less,
    Greater,
    LessEqual,
    GreaterEqual,
    Arrow,
    And,
    Or,
    Bang,
    Dot,
    At,
    LeftParen,
    RightParen,
    LeftBracket,
    RightBracket,
    Comma,
    Colon,
    Eof,
}

impl TokenKind {
    /// Type keywords (and identifiers, and the control-flow keywords) that may
    /// start a variable declaration.
    pub open spec fn spec_is_type_keyword(&self) -> bool {
        ||| self is KwInt ||| self is KwFloat ||| self is KwString ||| self is KwBool
        ||| self is KwStruct ||| self is KwObject ||| self is KwBehaviour ||| self is KwFunc
        ||| self is KwBuffer ||| self is KwEnum ||| self is KwTask ||| self is KwSignal
        ||| self is KwVec2 ||| self is KwVec3 ||| self is KwVec4
        ||| self is KwMat2 ||| self is KwMat3 ||| self is KwMat4 ||| self is KwTensor
        ||| self is KwIf ||| self is KwElse ||| self is KwElif ||| self is KwFor
        ||| self is KwWhile ||| self is KwReturn ||| self is KwImport ||| self is KwFrom
        ||| self is Identifier
    }

    /// Check if this token is a type keyword that starts a Variable declaration.
    pub fn is_type_keyword(&self) -> (b: bool)
        ensures
            b == self.spec_is_type_keyword(),
    {
        match self {
            TokenKind::KwInt | TokenKind::KwFloat | TokenKind::KwString | TokenKind::KwBool
            | TokenKind::KwStruct | TokenKind::KwObject | TokenKind::KwBehaviour | TokenKind::KwFunc
            | TokenKind::KwBuffer | TokenKind::KwEnum | TokenKind::KwTask | TokenKind::KwSignal
            | TokenKind::KwVec2 | TokenKind::KwVec3 | TokenKind::KwVec4
            | TokenKind::KwMat2 | TokenKind::KwMat3 | TokenKind::KwMat4 | TokenKind::KwTensor
            | TokenKind::KwIf | TokenKind::KwElse | TokenKind::KwElif | TokenKind::KwFor
            | TokenKind::KwWhile | TokenKind::KwReturn | TokenKind::KwImport | TokenKind::KwFrom
            | TokenKind::Identifier(_) => true,
            _ => false,
        }
    }

    /// Position of the variant in the declaration; two kinds have the same
    /// variant exactly when their tags are equal, whatever their payloads.
    pub open spec fn tag(&self) -> nat {
        match self {
            TokenKind::Newline => 0,
            TokenKind::Indent => 1,
            TokenKind::Dedent => 2,
            TokenKind::IntLiteral(..) => 3,
            TokenKind::FloatLiteral(..) => 4,
            TokenKind::StringLiteral(..) => 5,
            TokenKind::BoolLiteral(..) => 6,
            TokenKind::Identifier(..) => 7,
            TokenKind::KwInt => 8,
            TokenKind::KwFloat => 9,
            TokenKind::KwString => 10,
            TokenKind::KwBool => 11,
            TokenKind::KwStruct => 12,
            TokenKind::KwObject => 13,
            TokenKind::KwBehaviour => 14,
            TokenKind::KwFunc => 15,
            TokenKind::KwBuffer => 16,
            TokenKind::KwRef => 17,
            TokenKind::KwEnum => 18,
            TokenKind::KwTask => 19,
            TokenKind::KwSignal => 20,
            TokenKind::KwVec2 => 21,
            TokenKind::KwVec3 => 22,
            TokenKind::KwVec4 => 23,
            TokenKind::KwMat2 => 24,
            TokenKind::KwMat3 => 25,
            TokenKind::KwMat4 => 26,
            TokenKind::KwTensor => 27,
            TokenKind::KwConst => 28,
            TokenKind::KwExport => 29,
            TokenKind::KwExclude => 30,
            TokenKind::KwUses => 31,
            TokenKind::KwImport => 32,
            TokenKind::KwFrom => 33,
            TokenKind::KwIf => 34,
            TokenKind::KwElse => 35,
            TokenKind::KwElif => 36,
            TokenKind::KwFor => 37,
            TokenKind::KwWhile => 38,
            TokenKind::KwIn => 39,
            TokenKind::KwReturn => 40,
            TokenKind::Plus => 41,
            TokenKind::Minus => 42,
            TokenKind::Star => 43,
            TokenKind::Slash => 44,
            TokenKind::Percent => 45,
            TokenKind::Equal => 46,
            TokenKind::PlusEqual => 47,
            TokenKind::MinusEqual => 48,
            TokenKind::StarEqual => 49,
            TokenKind::SlashEqual => 50,
            TokenKind::EqualEqual => 51,
            TokenKind::BangEqual => 52,
            TokenKind::Less => 53,
            TokenKind::Greater => 54,
            TokenKind::LessEqual => 55,
            TokenKind::GreaterEqual => 56,
            TokenKind::Arrow => 57,
            TokenKind::And => 58,
            TokenKind::Or => 59,
            TokenKind::Bang => 60,
            TokenKind::Dot => 61,
            TokenKind::At => 62,
            TokenKind::LeftParen => 63,
            TokenKind::RightParen => 64,
            TokenKind::LeftBracket => 65,
            TokenKind::RightBracket => 66,
            TokenKind::Comma => 67,
            TokenKind::Colon => 68,
            TokenKind::Eof => 69,
        }
    }

    /// The variant's tag, computed.
    pub fn variant_tag(&self) -> (t: u8)
        ensures
            t == self.tag(),
    {
        match self {
            TokenKind::Newline => 0,
            TokenKind::Indent => 1,
            TokenKind::Dedent => 2,
            TokenKind::IntLiteral(..) => 3,
            TokenKind::FloatLiteral(..) => 4,
            TokenKind::StringLiteral(..) => 5,
            TokenKind::BoolLiteral(..) => 6,
            TokenKind::Identifier(..) => 7,
            TokenKind::KwInt => 8,
            TokenKind::KwFloat => 9,
            TokenKind::KwString => 10,
            TokenKind::KwBool => 11,
            TokenKind::KwStruct => 12,
            TokenKind::KwObject => 13,
            TokenKind::KwBehaviour => 14,
            TokenKind::KwFunc => 15,
            TokenKind::KwBuffer => 16,
            TokenKind::KwRef => 17,
            TokenKind::KwEnum => 18,
            TokenKind::KwTask => 19,
            TokenKind::KwSignal => 20,
            TokenKind::KwVec2 => 21,
            TokenKind::KwVec3 => 22,
            TokenKind::KwVec4 => 23,
            TokenKind::KwMat2 => 24,
            TokenKind::KwMat3 => 25,
            TokenKind::KwMat4 => 26,
            TokenKind::KwTensor => 27,
            TokenKind::KwConst => 28,
            TokenKind::KwExport => 29,
            TokenKind::KwExclude => 30,
            TokenKind::KwUses => 31,
            TokenKind::KwImport => 32,
            TokenKind::KwFrom => 33,
            TokenKind::KwIf => 34,
            TokenKind::KwElse => 35,
            TokenKind::KwElif => 36,
            TokenKind::KwFor => 37,
            TokenKind::KwWhile => 38,
            TokenKind::KwIn => 39,
            TokenKind::KwReturn => 40,
            TokenKind::Plus => 41,
            TokenKind::Minus => 42,
            TokenKind::Star => 43,
            TokenKind::Slash => 44,
            TokenKind::Percent => 45,
            TokenKind::Equal => 46,
            TokenKind::PlusEqual => 47,
            TokenKind::MinusEqual => 48,
            TokenKind::StarEqual => 49,
            TokenKind::SlashEqual => 50,
            TokenKind::EqualEqual => 51,
            TokenKind::BangEqual => 52,
            TokenKind::Less => 53,
            TokenKind::Greater => 54,
            TokenKind::LessEqual => 55,
            TokenKind::GreaterEqual => 56,
            TokenKind::Arrow => 57,
            TokenKind::And => 58,
            TokenKind::Or => 59,
            TokenKind::Bang => 60,
            TokenKind::Dot => 61,
            TokenKind::At => 62,
            TokenKind::LeftParen => 63,
            TokenKind::RightParen => 64,
            TokenKind::LeftBracket => 65,
            TokenKind::RightBracket => 66,
            TokenKind::Comma => 67,
            TokenKind::Colon => 68,
            TokenKind::Eof => 69,
        }
    }

    /// Whether `self` and `other` are the same variant, payloads aside.
    pub fn same_variant(&self, other: &TokenKind) -> (b: bool)
        ensures
            b == (self.tag() == other.tag()),
    {
        self.variant_tag() == other.variant_tag()
    }

    /// A copy of this kind (payloads cloned).
    pub fn duplicate(&self) -> (k: TokenKind)
        ensures
            k == *self,
    {
        match self {
            TokenKind::Newline => TokenKind::Newline,
            TokenKind::Indent => TokenKind::Indent,
            TokenKind::Dedent => TokenKind::Dedent,
            TokenKind::IntLiteral(x) => TokenKind::IntLiteral(*x),
            TokenKind::FloatLiteral(s) => TokenKind::FloatLiteral(s.clone()),
            TokenKind::StringLiteral(s) => TokenKind::StringLiteral(s.clone()),
            TokenKind::BoolLiteral(x) => TokenKind::BoolLiteral(*x),
            TokenKind::Identifier(s) => TokenKind::Identifier(s.clone()),
            TokenKind::KwInt => TokenKind::KwInt,
            TokenKind::KwFloat => TokenKind::KwFloat,
            TokenKind::KwString => TokenKind::KwString,
            TokenKind::KwBool => TokenKind::KwBool,
            TokenKind::KwStruct => TokenKind::KwStruct,
            TokenKind::KwObject => TokenKind::KwObject,
            TokenKind::KwBehaviour => TokenKind::KwBehaviour,
            TokenKind::KwFunc => TokenKind::KwFunc,
            TokenKind::KwBuffer => TokenKind::KwBuffer,
            TokenKind::KwRef => TokenKind::KwRef,
            TokenKind::KwEnum => TokenKind::KwEnum,
            TokenKind::KwTask => TokenKind::KwTask,
            TokenKind::KwSignal => TokenKind::KwSignal,
            TokenKind::KwVec2 => TokenKind::KwVec2,
            TokenKind::KwVec3 => TokenKind::KwVec3,
            TokenKind::KwVec4 => TokenKind::KwVec4,
            TokenKind::KwMat2 => TokenKind::KwMat2,
            TokenKind::KwMat3 => TokenKind::KwMat3,
            TokenKind::KwMat4 => TokenKind::KwMat4,
            TokenKind::KwTensor => TokenKind::KwTensor,
            TokenKind::KwConst => TokenKind::KwConst,
            TokenKind::KwExport => TokenKind::KwExport,
            TokenKind::KwExclude => TokenKind::KwExclude,
            TokenKind::KwUses => TokenKind::KwUses,
            TokenKind::KwImport => TokenKind::KwImport,
            TokenKind::KwFrom => TokenKind::KwFrom,
            TokenKind::KwIf => TokenKind::KwIf,
            TokenKind::KwElse => TokenKind::KwElse,
            TokenKind::KwElif => TokenKind::KwElif,
            TokenKind::KwFor => TokenKind::KwFor,
            TokenKind::KwWhile => TokenKind::KwWhile,
            TokenKind::KwIn => TokenKind::KwIn,
            TokenKind::KwReturn => TokenKind::KwReturn,
            TokenKind::Plus => TokenKind::Plus,
            TokenKind::Minus => TokenKind::Minus,
            TokenKind::Star => TokenKind::Star,
            TokenKind::Slash => TokenKind::Slash,
            TokenKind::Percent => TokenKind::Percent,
            TokenKind::Equal => TokenKind::Equal,
            TokenKind::PlusEqual => TokenKind::PlusEqual,
            TokenKind::MinusEqual => TokenKind::MinusEqual,
            TokenKind::StarEqual => TokenKind::StarEqual,
            TokenKind::SlashEqual => TokenKind::SlashEqual,
            TokenKind::EqualEqual => TokenKind::EqualEqual,
            TokenKind::BangEqual => TokenKind::BangEqual,
            TokenKind::Less => TokenKind::Less,
            TokenKind::Greater => TokenKind::Greater,
            TokenKind::LessEqual => TokenKind::LessEqual,
            TokenKind::GreaterEqual => TokenKind::GreaterEqual,
            TokenKind::Arrow => TokenKind::Arrow,
            TokenKind::And => TokenKind::And,
            TokenKind::Or => TokenKind::Or,
            TokenKind::Bang => TokenKind::Bang,
            TokenKind::Dot => TokenKind::Dot,
            TokenKind::At => TokenKind::At,
            TokenKind::LeftParen => TokenKind::LeftParen,
            TokenKind::RightParen => TokenKind::RightParen,
            TokenKind::LeftBracket => TokenKind::LeftBracket,
            TokenKind::RightBracket => TokenKind::RightBracket,
            TokenKind::Comma => TokenKind::Comma,
            TokenKind::Colon => TokenKind::Colon,
            TokenKind::Eof => TokenKind::Eof,
        }
    }
}

impl Token {
    /// A copy of this token.
    pub fn duplicate(&self) -> (t: Token)
        ensures
            t == *self,
    {
        Token { kind: self.kind.duplicate(), lexeme: self.lexeme.clone(), span: self.span }
    }
}

/// The `Debug` spelling of a string: in double quotes, with quotes,
/// backslashes and special characters escaped (what `format!("{:?}", s)`
/// gives for a `str`).
pub uninterp spec fn str_debug_text(s: Seq<char>) -> Seq<char>;

/// Calls `format!("{:?}", ..)` on a `str`; the contract names the text,
/// which depends on the characters alone.
#[verifier::external_body]
fn str_debug(s: &str) -> (r: String)
    ensures
        r@ == str_debug_text(s@),
{
    format!("{:?}", s)
}

/// How a token kind is written in messages: the variant's name, with its
/// payload in parentheses (a text in double quotes, escaped as `Debug`
/// writes it; a float literal as written in the source).
pub open spec fn kind_text_spec(k: KindView) -> Seq<char> {
    match k {
        KindView::Word(w) => "Identifier("@ + str_debug_text(w) + ")"@,
        KindView::Int(n) => "IntLiteral("@ + int_text(n as int) + ")"@,
        KindView::Float(t) => "FloatLiteral("@ + t + ")"@,
        KindView::Str(t) => "StringLiteral("@ + str_debug_text(t) + ")"@,
        KindView::Plain(k) => match k {
            TokenKind::BoolLiteral(b) => if b { "BoolLiteral(true)"@ } else { "BoolLiteral(false)"@ },
            TokenKind::IntLiteral(..) => "IntLiteral"@,
            TokenKind::FloatLiteral(..) => "FloatLiteral"@,
            TokenKind::StringLiteral(..) => "StringLiteral"@,
            TokenKind::Identifier(..) => "Identifier"@,
            TokenKind::Newline => "Newline"@,
            TokenKind::Indent => "Indent"@,
            TokenKind::Dedent => "Dedent"@,
            TokenKind::KwInt => "KwInt"@,
            TokenKind::KwFloat => "KwFloat"@,
            TokenKind::KwString => "KwString"@,
            TokenKind::KwBool => "KwBool"@,
            TokenKind::KwStruct => "KwStruct"@,
            TokenKind::KwObject => "KwObject"@,
            TokenKind::KwBehaviour => "KwBehaviour"@,
            TokenKind::KwFunc => "KwFunc"@,
            TokenKind::KwBuffer => "KwBuffer"@,
            TokenKind::KwRef => "KwRef"@,
            TokenKind::KwEnum => "KwEnum"@,
            TokenKind::KwTask => "KwTask"@,
            TokenKind::KwSignal => "KwSignal"@,
            TokenKind::KwVec2 => "KwVec2"@,
            TokenKind::KwVec3 => "KwVec3"@,
            TokenKind::KwVec4 => "KwVec4"@,
            TokenKind::KwMat2 => "KwMat2"@,
            TokenKind::KwMat3 => "KwMat3"@,
            TokenKind::KwMat4 => "KwMat4"@,
            TokenKind::KwTensor => "KwTensor"@,
            TokenKind::KwConst => "KwConst"@,
            TokenKind::KwExport => "KwExport"@,
            TokenKind::KwExclude => "KwExclude"@,
            TokenKind::KwUses => "KwUses"@,
            TokenKind::KwImport => "KwImport"@,
            TokenKind::KwFrom => "KwFrom"@,
            TokenKind::KwIf => "KwIf"@,
            TokenKind::KwElse => "KwElse"@,
            TokenKind::KwElif => "KwElif"@,
            TokenKind::KwFor => "KwFor"@,
            TokenKind::KwWhile => "KwWhile"@,
            TokenKind::KwIn => "KwIn"@,
            TokenKind::KwReturn => "KwReturn"@,
            TokenKind::Plus => "Plus"@,
            TokenKind::Minus => "Minus"@,
            TokenKind::Star => "Star"@,
            TokenKind::Slash => "Slash"@,
            TokenKind::Percent => "Percent"@,
            TokenKind::Equal => "Equal"@,
            TokenKind::PlusEqual => "PlusEqual"@,
            TokenKind::MinusEqual => "MinusEqual"@,
            TokenKind::StarEqual => "StarEqual"@,
            TokenKind::SlashEqual => "SlashEqual"@,
            TokenKind::EqualEqual => "EqualEqual"@,
            TokenKind::BangEqual => "BangEqual"@,
            TokenKind::Less => "Less"@,
            TokenKind::Greater => "Greater"@,
            TokenKind::LessEqual => "LessEqual"@,
            TokenKind::GreaterEqual => "GreaterEqual"@,
            TokenKind::Arrow => "Arrow"@,
            TokenKind::And => "And"@,
            TokenKind::Or => "Or"@,
            TokenKind::Bang => "Bang"@,
            TokenKind::Dot => "Dot"@,
            TokenKind::At => "At"@,
            TokenKind::LeftParen => "LeftParen"@,
            TokenKind::RightParen => "RightParen"@,
            TokenKind::LeftBracket => "LeftBracket"@,
            TokenKind::RightBracket => "RightBracket"@,
            TokenKind::Comma => "Comma"@,
            TokenKind::Colon => "Colon"@,
            TokenKind::Eof => "Eof"@,
        },
    }
}

/// The text of a token kind for messages.
pub(crate) fn kind_text(k: &TokenKind) -> (r: String)
    ensures
        r@ == kind_text_spec(kind_view(*k)),
{
    match k {
        TokenKind::Identifier(w) => msg_around("Identifier(", str_debug(w.as_str()).as_str()),
        TokenKind::IntLiteral(n) => msg_around("IntLiteral(", int_string(*n).as_str()),
        TokenKind::FloatLiteral(t) => msg_around("FloatLiteral(", t.as_str()),
        TokenKind::StringLiteral(t) => msg_around("StringLiteral(", str_debug(t.as_str()).as_str()),
        TokenKind::BoolLiteral(b) => owned(if *b { "BoolLiteral(true)" } else { "BoolLiteral(false)" }),
        TokenKind::Newline => owned("Newline"),
        TokenKind::Indent => owned("Indent"),
        TokenKind::Dedent => owned("Dedent"),
        TokenKind::KwInt => owned("KwInt"),
        TokenKind::KwFloat => owned("KwFloat"),
        TokenKind::KwString => owned("KwString"),
        TokenKind::KwBool => owned("KwBool"),
        TokenKind::KwStruct => owned("KwStruct"),
        TokenKind::KwObject => owned("KwObject"),
        TokenKind::KwBehaviour => owned("KwBehaviour"),
        TokenKind::KwFunc => owned("KwFunc"),
        TokenKind::KwBuffer => owned("KwBuffer"),
        TokenKind::KwRef => owned("KwRef"),
        TokenKind::KwEnum => owned("KwEnum"),
        TokenKind::KwTask => owned("KwTask"),
        TokenKind::KwSignal => owned("KwSignal"),
        TokenKind::KwVec2 => owned("KwVec2"),
        TokenKind::KwVec3 => owned("KwVec3"),
        TokenKind::KwVec4 => owned("KwVec4"),
        TokenKind::KwMat2 => owned("KwMat2"),
        TokenKind::KwMat3 => owned("KwMat3"),
        TokenKind::KwMat4 => owned("KwMat4"),
        TokenKind::KwTensor => owned("KwTensor"),
        TokenKind::KwConst => owned("KwConst"),
        TokenKind::KwExport => owned("KwExport"),
        TokenKind::KwExclude => owned("KwExclude"),
        TokenKind::KwUses => owned("KwUses"),
        TokenKind::KwImport => owned("KwImport"),
        TokenKind::KwFrom => owned("KwFrom"),
        TokenKind::KwIf => owned("KwIf"),
        TokenKind::KwElse => owned("KwElse"),
        TokenKind::KwElif => owned("KwElif"),
        TokenKind::KwFor => owned("KwFor"),
        TokenKind::KwWhile => owned("KwWhile"),
        TokenKind::KwIn => owned("KwIn"),
        TokenKind::KwReturn => owned("KwReturn"),
        TokenKind::Plus => owned("Plus"),
        TokenKind::Minus => owned("Minus"),
        TokenKind::Star => owned("Star"),
        TokenKind::Slash => owned("Slash"),
        TokenKind::Percent => owned("Percent"),
        TokenKind::Equal => owned("Equal"),
        TokenKind::PlusEqual => owned("PlusEqual"),
        TokenKind::MinusEqual => owned("MinusEqual"),
        TokenKind::StarEqual => owned("StarEqual"),
        TokenKind::SlashEqual => owned("SlashEqual"),
        TokenKind::EqualEqual => owned("EqualEqual"),
        TokenKind::BangEqual => owned("BangEqual"),
        TokenKind::Less => owned("Less"),
        TokenKind::Greater => owned("Greater"),
        TokenKind::LessEqual => owned("LessEqual"),
        TokenKind::GreaterEqual => owned("GreaterEqual"),
        TokenKind::Arrow => owned("Arrow"),
        TokenKind::And => owned("And"),
        TokenKind::Or => owned("Or"),
        TokenKind::Bang => owned("Bang"),
        TokenKind::Dot => owned("Dot"),
        TokenKind::At => owned("At"),
        TokenKind::LeftParen => owned("LeftParen"),
        TokenKind::RightParen => owned("RightParen"),
        TokenKind::LeftBracket => owned("LeftBracket"),
        TokenKind::RightBracket => owned("RightBracket"),
        TokenKind::Comma => owned("Comma"),
        TokenKind::Colon => owned("Colon"),
        TokenKind::Eof => owned("Eof"),
    }
}

/// `head` + `x` + ")".
fn msg_around(head: &str, x: &str) -> (m: String)
    ensures
        m@ == head@ + x@ + ")"@,
{
    let mut m = concat(head, x);
    m.append(")");
    m
}

/// `err` located at a token: "<err> at line L, col C (found <kind>)".
pub open spec fn located(err: Seq<char>, t: Token) -> Seq<char> {
    err + " at line "@ + decimal(t.span.line as nat) + ", col "@ + decimal(t.span.column as nat) + " (found "@
        + kind_text_spec(kind_view(t.kind)) + ")"@
}

/// The parsers' error message for `err` at token `tok`.
pub(crate) fn located_error(err: &str, tok: &Token) -> (m: String)
    ensures
        m@ == located(err@, *tok),
        m@.len() >= err@.len(),
        m@.subrange(0, err@.len() as int) == err@,
{
    let mut m = concat(err, " at line ");
    m.append(decimal_string(tok.span.line as u64).as_str());
    m.append(", col ");
    m.append(decimal_string(tok.span.column as u64).as_str());
    m.append(" (found ");
    m.append(kind_text(&tok.kind).as_str());
    m.append(")");
    proof {
        assert(m@ =~= located(err@, *tok));
    }
    m
}

/// The token kind of a reserved word (the type, modifier and control-flow
/// keywords, and `true` / `false`); `None` for any other word.
pub open spec fn keyword_kind(w: Seq<char>) -> Option<TokenKind> {
    if w == "int"@ {
        Some(TokenKind::KwInt)
    } else if w == "float"@ {
        Some(TokenKind::KwFloat)
    } else if w == "string"@ {
        Some(TokenKind::KwString)
    } else if w == "bool"@ {
        Some(TokenKind::KwBool)
    } else if w == "struct"@ {
        Some(TokenKind::KwStruct)
    } else if w == "object"@ {
        Some(TokenKind::KwObject)
    } else if w == "behaviour"@ {
        Some(TokenKind::KwBehaviour)
    } else if w == "func"@ {
        Some(TokenKind::KwFunc)
    } else if w == "buffer"@ {
        Some(TokenKind::KwBuffer)
    } else if w == "ref"@ {
        Some(TokenKind::KwRef)
    } else if w == "enum"@ {
        Some(TokenKind::KwEnum)
    } else if w == "task"@ {
        Some(TokenKind::KwTask)
    } else if w == "signal"@ {
        Some(TokenKind::KwSignal)
    } else if w == "const"@ {
        Some(TokenKind::KwConst)
    } else if w == "export"@ {
        Some(TokenKind::KwExport)
    } else if w == "exclude"@ {
        Some(TokenKind::KwExclude)
    } else if w == "import"@ {
        Some(TokenKind::KwImport)
    } else if w == "from"@ {
        Some(TokenKind::KwFrom)
    } else if w == "uses"@ {
        Some(TokenKind::KwUses)
    } else if w == "if"@ {
        Some(TokenKind::KwIf)
    } else if w == "else"@ {
        Some(TokenKind::KwElse)
    } else if w == "elif"@ {
        Some(TokenKind::KwElif)
    } else if w == "for"@ {
        Some(TokenKind::KwFor)
    } else if w == "while"@ {
        Some(TokenKind::KwWhile)
    } else if w == "in"@ {
        Some(TokenKind::KwIn)
    } else if w == "return"@ {
        Some(TokenKind::KwReturn)
    } else if w == "true"@ {
        Some(TokenKind::BoolLiteral(true))
    } else if w == "false"@ {
        Some(TokenKind::BoolLiteral(false))
    } else {
        None
    }
}

/// The one spelling of a kind that has one: operators, delimiters,
/// keywords and the two boolean literals.
pub open spec fn fixed_spelling(k: TokenKind) -> Option<Seq<char>> {
    match k {
        TokenKind::Plus => Some("+"@),
        TokenKind::Minus => Some("-"@),
        TokenKind::Star => Some("*"@),
        TokenKind::Slash => Some("/"@),
        TokenKind::Percent => Some("%"@),
        TokenKind::Equal => Some("="@),
        TokenKind::PlusEqual => Some("+="@),
        TokenKind::MinusEqual => Some("-="@),
        TokenKind::StarEqual => Some("*="@),
        TokenKind::SlashEqual => Some("/="@),
        TokenKind::EqualEqual => Some("=="@),
        TokenKind::BangEqual => Some("!="@),
        TokenKind::Less => Some("<"@),
        TokenKind::Greater => Some(">"@),
        TokenKind::LessEqual => Some("<="@),
        TokenKind::GreaterEqual => Some(">="@),
        TokenKind::Arrow => Some("->"@),
        TokenKind::And => Some("&&"@),
        TokenKind::Or => Some("||"@),
        TokenKind::Bang => Some("!"@),
        TokenKind::Dot => Some("."@),
        TokenKind::At => Some("@"@),
        TokenKind::LeftParen => Some("("@),
        TokenKind::RightParen => Some(")"@),
        TokenKind::LeftBracket => Some("["@),
        TokenKind::RightBracket => Some("]"@),
        TokenKind::Comma => Some(","@),
        TokenKind::Colon => Some(":"@),
        TokenKind::KwInt => Some("int"@),
        TokenKind::KwFloat => Some("float"@),
        TokenKind::KwString => Some("string"@),
        TokenKind::KwBool => Some("bool"@),
        TokenKind::KwStruct => Some("struct"@),
        TokenKind::KwObject => Some("object"@),
        TokenKind::KwBehaviour => Some("behaviour"@),
        TokenKind::KwFunc => Some("func"@),
        TokenKind::KwBuffer => Some("buffer"@),
        TokenKind::KwRef => Some("ref"@),
        TokenKind::KwEnum => Some("enum"@),
        TokenKind::KwTask => Some("task"@),
        TokenKind::KwSignal => Some("signal"@),
        TokenKind::KwConst => Some("const"@),
        TokenKind::KwExport => Some("export"@),
        TokenKind::KwExclude => Some("exclude"@),
        TokenKind::KwImport => Some("import"@),
        TokenKind::KwFrom => Some("from"@),
        TokenKind::KwUses => Some("uses"@),
        TokenKind::KwIf => Some("if"@),
        TokenKind::KwElse => Some("else"@),
        TokenKind::KwElif => Some("elif"@),
        TokenKind::KwFor => Some("for"@),
        TokenKind::KwWhile => Some("while"@),
        TokenKind::KwIn => Some("in"@),
        TokenKind::KwReturn => Some("return"@),
        TokenKind::BoolLiteral(true) => Some("true"@),
        TokenKind::BoolLiteral(false) => Some("false"@),
        _ => None,
    }
}

/// The spelling of a reserved word is the word itself.
pub proof fn lemma_keyword_spelling(w: Seq<char>)
    ensures
        keyword_kind(w) matches Some(k) ==> fixed_spelling(k) == Some(w),
{
}

} // verus!
