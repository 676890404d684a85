//! Tokens produced by the lexer.

use vstd::prelude::*;

use crate::span::Span;

verus! {

/// All possible kinds of [`Token`], with their payloads.
///
/// A float literal carries the text of the literal (underscores already
/// stripped); turning that text into a machine float is the host's concern,
/// since the core manipulates floating-point data only symbolically.
#[derive(Clone, Debug)]
pub enum TokenType {
    TypeKwBottom,
    TypeKwTuple,
    TypeKwList,
    TypeKwVector,
    TypeKwFunction,
    TypeKwSum,
    TypeKwProduct,

    KwQuote,
    KwLet,
    KwFn,
    KwLambda,
    KwSeq,
    KwIf,
    KwInclude,

    Identifier(String),
    Boolean(bool),
    Integer(u64),
    Float(String),
    Character(char),
    String(String),
    Atom(String),

    LeftParen,
    RightParen,
    Period,
    Backtick,

    EndOfFile,
}

/// The mathematical shape of a [`TokenType`]: text payloads as `Seq<char>`.
pub enum TokenTypeV {
    TypeKwBottom,
    TypeKwTuple,
    TypeKwList,
    TypeKwVector,
    TypeKwFunction,
    TypeKwSum,
    TypeKwProduct,

    KwQuote,
    KwLet,
    KwFn,
    KwLambda,
    KwSeq,
    KwIf,
    KwInclude,

    Identifier(Seq<char>),
    Boolean(bool),
    Integer(u64),
    Float(Seq<char>),
    Character(char),
    String(Seq<char>),
    Atom(Seq<char>),

    LeftParen,
    RightParen,
    Period,
    Backtick,

    EndOfFile,
}

impl View for TokenType {
    type V = TokenTypeV;

    open spec fn view(&self) -> TokenTypeV {
        match self {
            TokenType::TypeKwBottom => TokenTypeV::TypeKwBottom,
            TokenType::TypeKwTuple => TokenTypeV::TypeKwTuple,
            TokenType::TypeKwList => TokenTypeV::TypeKwList,
            TokenType::TypeKwVector => TokenTypeV::TypeKwVector,
            TokenType::TypeKwFunction => TokenTypeV::TypeKwFunction,
            TokenType::TypeKwSum => TokenTypeV::TypeKwSum,
            TokenType::TypeKwProduct => TokenTypeV::TypeKwProduct,
            TokenType::KwQuote => TokenTypeV::KwQuote,
            TokenType::KwLet => TokenTypeV::KwLet,
            TokenType::KwFn => TokenTypeV::KwFn,
            TokenType::KwLambda => TokenTypeV::KwLambda,
            TokenType::KwSeq => TokenTypeV::KwSeq,
            TokenType::KwIf => TokenTypeV::KwIf,
            TokenType::KwInclude => TokenTypeV::KwInclude,
            TokenType::Identifier(id) => TokenTypeV::Identifier(id@),
            TokenType::Boolean(b) => TokenTypeV::Boolean(*b),
            TokenType::Integer(i) => TokenTypeV::Integer(*i),
            TokenType::Float(text) => TokenTypeV::Float(text@),
            TokenType::Character(c) => TokenTypeV::Character(*c),
            TokenType::String(s) => TokenTypeV::String(s@),
            TokenType::Atom(a) => TokenTypeV::Atom(a@),
            TokenType::LeftParen => TokenTypeV::LeftParen,
            TokenType::RightParen => TokenTypeV::RightParen,
            TokenType::Period => TokenTypeV::Period,
            TokenType::Backtick => TokenTypeV::Backtick,
            TokenType::EndOfFile => TokenTypeV::EndOfFile,
        }
    }
}

/// The structural kind of a token, without its payload.
///
/// The parser selects tokens by kind; two tokens match when their kinds do,
/// whatever their payloads.
#[derive(Clone, Copy, Debug, PartialEq, Eq, Structural)]
pub enum TokenKind {
    TypeKwBottom,
    TypeKwTuple,
    TypeKwList,
    TypeKwVector,
    TypeKwFunction,
    TypeKwSum,
    TypeKwProduct,

    KwQuote,
    KwLet,
    KwFn,
    KwLambda,
    KwSeq,
    KwIf,
    KwInclude,

    Identifier,
    Boolean,
    Integer,
    Float,
    Character,
    String,
    Atom,

    LeftParen,
    RightParen,
    Period,
    Backtick,

    EndOfFile,
}

/// The kind of a token-type shape.
pub open spec fn spec_kind(t: TokenTypeV) -> TokenKind {
    match t {
        TokenTypeV::TypeKwBottom => TokenKind::TypeKwBottom,
        TokenTypeV::TypeKwTuple => TokenKind::TypeKwTuple,
        TokenTypeV::TypeKwList => TokenKind::TypeKwList,
        TokenTypeV::TypeKwVector => TokenKind::TypeKwVector,
        TokenTypeV::TypeKwFunction => TokenKind::TypeKwFunction,
        TokenTypeV::TypeKwSum => TokenKind::TypeKwSum,
        TokenTypeV::TypeKwProduct => TokenKind::TypeKwProduct,
        TokenTypeV::KwQuote => TokenKind::KwQuote,
        TokenTypeV::KwLet => TokenKind::KwLet,
        TokenTypeV::KwFn => TokenKind::KwFn,
        TokenTypeV::KwLambda => TokenKind::KwLambda,
        TokenTypeV::KwSeq => TokenKind::KwSeq,
        TokenTypeV::KwIf => TokenKind::KwIf,
        TokenTypeV::KwInclude => TokenKind::KwInclude,
        TokenTypeV::Identifier(_) => TokenKind::Identifier,
        TokenTypeV::Boolean(_) => TokenKind::Boolean,
        TokenTypeV::Integer(_) => TokenKind::Integer,
        TokenTypeV::Float(_) => TokenKind::Float,
        TokenTypeV::Character(_) => TokenKind::Character,
        TokenTypeV::String(_) => TokenKind::String,
        TokenTypeV::Atom(_) => TokenKind::Atom,
        TokenTypeV::LeftParen => TokenKind::LeftParen,
        TokenTypeV::RightParen => TokenKind::RightParen,
        TokenTypeV::Period => TokenKind::Period,
        TokenTypeV::Backtick => TokenKind::Backtick,
        TokenTypeV::EndOfFile => TokenKind::EndOfFile,
    }
}

impl TokenType {
    /// The structural kind of this token type.
    pub fn kind(&self) -> (k: TokenKind)
        ensures
            k == spec_kind(self@),
    {
        match self {
            TokenType::TypeKwBottom => TokenKind::TypeKwBottom,
            TokenType::TypeKwTuple => TokenKind::TypeKwTuple,
            TokenType::TypeKwList => TokenKind::TypeKwList,
            TokenType::TypeKwVector => TokenKind::TypeKwVector,
            TokenType::TypeKwFunction => TokenKind::TypeKwFunction,
            TokenType::TypeKwSum => TokenKind::TypeKwSum,
            TokenType::TypeKwProduct => TokenKind::TypeKwProduct,
            TokenType::KwQuote => TokenKind::KwQuote,
            TokenType::KwLet => TokenKind::KwLet,
            TokenType::KwFn => TokenKind::KwFn,
            TokenType::KwLambda => TokenKind::KwLambda,
            TokenType::KwSeq => TokenKind::KwSeq,
            TokenType::KwIf => TokenKind::KwIf,
            TokenType::KwInclude => TokenKind::KwInclude,
            TokenType::Identifier(_) => TokenKind::Identifier,
            TokenType::Boolean(_) => TokenKind::Boolean,
            TokenType::Integer(_) => TokenKind::Integer,
            TokenType::Float(_) => TokenKind::Float,
            TokenType::Character(_) => TokenKind::Character,
            TokenType::String(_) => TokenKind::String,
            TokenType::Atom(_) => TokenKind::Atom,
            TokenType::LeftParen => TokenKind::LeftParen,
            TokenType::RightParen => TokenKind::RightParen,
            TokenType::Period => TokenKind::Period,
            TokenType::Backtick => TokenKind::Backtick,
            TokenType::EndOfFile => TokenKind::EndOfFile,
        }
    }

    /// The display name of this token type's kind.
    ///
    /// The sequence keyword is surfaced under the name `begin`.
    pub fn name(&self) -> (r: String)
        ensures
            r@ == spec_kind_name(spec_kind(self@)),
    {
        kind_name(self.kind())
    }
}

/// The display name of a token kind.
pub open spec fn spec_kind_name(k: TokenKind) -> Seq<char> {
    match k {
        TokenKind::TypeKwBottom => "Bottom"@,
        TokenKind::TypeKwTuple => "Tuple"@,
        TokenKind::TypeKwList => "List"@,
        TokenKind::TypeKwVector => "Vector"@,
        TokenKind::TypeKwFunction => "Function"@,
        TokenKind::TypeKwSum => "Sum"@,
        TokenKind::TypeKwProduct => "Product"@,
        TokenKind::KwQuote => "quote"@,
        TokenKind::KwLet => "let"@,
        TokenKind::KwFn => "fn"@,
        TokenKind::KwLambda => "lambda"@,
        TokenKind::KwSeq => "begin"@,
        TokenKind::KwIf => "if"@,
        TokenKind::KwInclude => "include"@,
        TokenKind::Identifier => "Identifier"@,
        TokenKind::Boolean => "Boolean"@,
        TokenKind::Integer => "Integer"@,
        TokenKind::Float => "Float"@,
        TokenKind::Character => "Character"@,
        TokenKind::String => "String"@,
        TokenKind::Atom => "Atom"@,
        TokenKind::LeftParen => "("@,
        TokenKind::RightParen => ")"@,
        TokenKind::Period => "."@,
        TokenKind::Backtick => "`"@,
        TokenKind::EndOfFile => "EndOfFile"@,
    }
}

/// The display name of a token kind, as owned text.
pub fn kind_name(k: TokenKind) -> (r: String)
    ensures
        r@ == spec_kind_name(k),
{
    match k {
        TokenKind::TypeKwBottom => String::from_str("Bottom"),
        TokenKind::TypeKwTuple => String::from_str("Tuple"),
        TokenKind::TypeKwList => String::from_str("List"),
        TokenKind::TypeKwVector => String::from_str("Vector"),
        TokenKind::TypeKwFunction => String::from_str("Function"),
        TokenKind::TypeKwSum => String::from_str("Sum"),
        TokenKind::TypeKwProduct => String::from_str("Product"),
        TokenKind::KwQuote => String::from_str("quote"),
        TokenKind::KwLet => String::from_str("let"),
        TokenKind::KwFn => String::from_str("fn"),
        TokenKind::KwLambda => String::from_str("lambda"),
        TokenKind::KwSeq => String::from_str("begin"),
        TokenKind::KwIf => String::from_str("if"),
        TokenKind::KwInclude => String::from_str("include"),
        TokenKind::Identifier => String::from_str("Identifier"),
        TokenKind::Boolean => String::from_str("Boolean"),
        TokenKind::Integer => String::from_str("Integer"),
        TokenKind::Float => String::from_str("Float"),
        TokenKind::Character => String::from_str("Character"),
        TokenKind::String => String::from_str("String"),
        TokenKind::Atom => String::from_str("Atom"),
        TokenKind::LeftParen => String::from_str("("),
        TokenKind::RightParen => String::from_str(")"),
        TokenKind::Period => String::from_str("."),
        TokenKind::Backtick => String::from_str("`"),
        TokenKind::EndOfFile => String::from_str("EndOfFile"),
    }
}

/// A single source code token.
#[derive(Clone, Debug)]
pub struct Token {
    /// The region of source code wrapped by this token.
    pub span: Span,
    /// The type of the token.
    pub t: TokenType,
}

/// The mathematical shape of a [`Token`].
pub struct TokenV {
    /// The region of source code wrapped by this token.
    pub span: Span,
    /// The shape of the token's type.
    pub t: TokenTypeV,
}

impl View for Token {
    type V = TokenV;

    open spec fn view(&self) -> TokenV {
        TokenV { span: self.span, t: self.t@ }
    }
}

impl TokenType {
    /// An independent copy of this token type.
    pub fn duplicate(&self) -> (r: TokenType)
        ensures
            r@ == self@,
    {
        match self {
            TokenType::TypeKwBottom => TokenType::TypeKwBottom,
            TokenType::TypeKwTuple => TokenType::TypeKwTuple,
            TokenType::TypeKwList => TokenType::TypeKwList,
            TokenType::TypeKwVector => TokenType::TypeKwVector,
            TokenType::TypeKwFunction => TokenType::TypeKwFunction,
            TokenType::TypeKwSum => TokenType::TypeKwSum,
            TokenType::TypeKwProduct => TokenType::TypeKwProduct,
            TokenType::KwQuote => TokenType::KwQuote,
            TokenType::KwLet => TokenType::KwLet,
            TokenType::KwFn => TokenType::KwFn,
            TokenType::KwLambda => TokenType::KwLambda,
            TokenType::KwSeq => TokenType::KwSeq,
            TokenType::KwIf => TokenType::KwIf,
            TokenType::KwInclude => TokenType::KwInclude,
            TokenType::Identifier(id) => TokenType::Identifier(id.clone()),
            TokenType::Boolean(b) => TokenType::Boolean(*b),
            TokenType::Integer(i) => TokenType::Integer(*i),
            TokenType::Float(text) => TokenType::Float(text.clone()),
            TokenType::Character(c) => TokenType::Character(*c),
            TokenType::String(s) => TokenType::String(s.clone()),
            TokenType::Atom(a) => TokenType::Atom(a.clone()),
            TokenType::LeftParen => TokenType::LeftParen,
            TokenType::RightParen => TokenType::RightParen,
            TokenType::Period => TokenType::Period,
            TokenType::Backtick => TokenType::Backtick,
            TokenType::EndOfFile => TokenType::EndOfFile,
        }
    }
}

impl Token {
    /// An independent copy of this token.
    pub fn duplicate(&self) -> (r: Token)
        ensures
            r@ == self@,
    {
        Token { span: self.span, t: self.t.duplicate() }
    }

    /// Change the span of `self`.
    pub fn with_span(self, span: Span) -> (r: Token)
        ensures
            r@.span == span,
            r@.t == self@.t,
    {
        Token { span, t: self.t }
    }
}

} // verus!
