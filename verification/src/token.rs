//! Tokens, token kinds and lexical errors, with their mathematical views.

use vstd::prelude::*;

use crate::position::Span;

verus! {

/// The kind of a token. Identifier, operator and string payloads carry the
/// decoded text; a number literal carries its source text (digits with at
/// most one decimal point), exactly as written.
#[derive(Debug, PartialEq)]
pub enum TokenKind {
    Operator(String),
    Identifier(String),
    StringLiteral(String),
    NumberLiteral(String),
    LeftParenthesis,
    RightParenthesis,
    LeftBrace,
    RightBrace,
    LeftBracket,
    RightBracket,
    Colon,
    Dot,
    Comma,
}

/// The view of a `TokenKind`: payloads become sequences of code points.
pub enum TokenKindView {
    Operator(Seq<char>),
    Identifier(Seq<char>),
    StringLiteral(Seq<char>),
    NumberLiteral(Seq<char>),
    LeftParenthesis,
    RightParenthesis,
    LeftBrace,
    RightBrace,
    LeftBracket,
    RightBracket,
    Colon,
    Dot,
    Comma,
}

impl View for TokenKind {
    type V = TokenKindView;

    open spec fn view(&self) -> TokenKindView {
        match self {
            TokenKind::Operator(s) => TokenKindView::Operator(s@),
            TokenKind::Identifier(s) => TokenKindView::Identifier(s@),
            TokenKind::StringLiteral(s) => TokenKindView::StringLiteral(s@),
            TokenKind::NumberLiteral(s) => TokenKindView::NumberLiteral(s@),
            TokenKind::LeftParenthesis => TokenKindView::LeftParenthesis,
            TokenKind::RightParenthesis => TokenKindView::RightParenthesis,
            TokenKind::LeftBrace => TokenKindView::LeftBrace,
            TokenKind::RightBrace => TokenKindView::RightBrace,
            TokenKind::LeftBracket => TokenKindView::LeftBracket,
            TokenKind::RightBracket => TokenKindView::RightBracket,
            TokenKind::Colon => TokenKindView::Colon,
            TokenKind::Dot => TokenKindView::Dot,
            TokenKind::Comma => TokenKindView::Comma,
        }
    }
}

impl TokenKind {
    /// Whether two kinds are the same, payloads included.
    pub fn kind_eq(&self, other: &TokenKind) -> (r: bool)
        ensures
            r == (self@ == other@),
    {
        match (self, other) {
            (TokenKind::Operator(a), TokenKind::Operator(b)) => *a == *b,
            (TokenKind::Identifier(a), TokenKind::Identifier(b)) => *a == *b,
            (TokenKind::StringLiteral(a), TokenKind::StringLiteral(b)) => *a == *b,
            (TokenKind::NumberLiteral(a), TokenKind::NumberLiteral(b)) => *a == *b,
            (TokenKind::LeftParenthesis, TokenKind::LeftParenthesis) => true,
            (TokenKind::RightParenthesis, TokenKind::RightParenthesis) => true,
            (TokenKind::LeftBrace, TokenKind::LeftBrace) => true,
            (TokenKind::RightBrace, TokenKind::RightBrace) => true,
            (TokenKind::LeftBracket, TokenKind::LeftBracket) => true,
            (TokenKind::RightBracket, TokenKind::RightBracket) => true,
            (TokenKind::Colon, TokenKind::Colon) => true,
            (TokenKind::Dot, TokenKind::Dot) => true,
            (TokenKind::Comma, TokenKind::Comma) => true,
            _ => false,
        }
    }
}

impl Clone for TokenKind {
    /// A clone has the same view as the original.
    fn clone(&self) -> (r: TokenKind)
        ensures
            r@ == self@,
    {
        match self {
            TokenKind::Operator(s) => TokenKind::Operator(s.clone()),
            TokenKind::Identifier(s) => TokenKind::Identifier(s.clone()),
            TokenKind::StringLiteral(s) => TokenKind::StringLiteral(s.clone()),
            TokenKind::NumberLiteral(s) => TokenKind::NumberLiteral(s.clone()),
            TokenKind::LeftParenthesis => TokenKind::LeftParenthesis,
            TokenKind::RightParenthesis => TokenKind::RightParenthesis,
            TokenKind::LeftBrace => TokenKind::LeftBrace,
            TokenKind::RightBrace => TokenKind::RightBrace,
            TokenKind::LeftBracket => TokenKind::LeftBracket,
            TokenKind::RightBracket => TokenKind::RightBracket,
            TokenKind::Colon => TokenKind::Colon,
            TokenKind::Dot => TokenKind::Dot,
            TokenKind::Comma => TokenKind::Comma,
        }
    }
}

/// A token: a kind and the span of source it was read from.
#[derive(Debug, PartialEq)]
pub struct Token {
    pub kind: TokenKind,
    pub span: Span,
}

impl Clone for Token {
    /// A clone has the same view as the original.
    fn clone(&self) -> (r: Token)
        ensures
            r@ == self@,
    {
        Token { kind: self.kind.clone(), span: self.span }
    }
}

/// The view of a `Token`.
pub struct TokenView {
    pub kind: TokenKindView,
    pub span: Span,
}

impl View for Token {
    type V = TokenView;

    open spec fn view(&self) -> TokenView {
        TokenView { kind: self.kind@, span: self.span }
    }
}

/// An error raised while turning source text into tokens.
#[derive(Debug, PartialEq)]
pub enum TokenizeError {
    UnexpectedCharacter(char),
    InvalidEscapeSequence(char),
    UnterminatedStringLiteral,
    InvalidNumberFormatMultipleDecimalPoints,
    FailedToParseNumber(String),
}

/// The view of a `TokenizeError`.
pub enum TokenizeErrorView {
    UnexpectedCharacter(char),
    InvalidEscapeSequence(char),
    UnterminatedStringLiteral,
    InvalidNumberFormatMultipleDecimalPoints,
    FailedToParseNumber(Seq<char>),
}

impl View for TokenizeError {
    type V = TokenizeErrorView;

    open spec fn view(&self) -> TokenizeErrorView {
        match self {
            TokenizeError::UnexpectedCharacter(c) => TokenizeErrorView::UnexpectedCharacter(*c),
            TokenizeError::InvalidEscapeSequence(c) => TokenizeErrorView::InvalidEscapeSequence(
                *c,
            ),
            TokenizeError::UnterminatedStringLiteral => {
                TokenizeErrorView::UnterminatedStringLiteral
            },
            TokenizeError::InvalidNumberFormatMultipleDecimalPoints => {
                TokenizeErrorView::InvalidNumberFormatMultipleDecimalPoints
            },
            TokenizeError::FailedToParseNumber(s) => TokenizeErrorView::FailedToParseNumber(s@),
        }
    }
}

} // verus!
