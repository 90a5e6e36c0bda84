use vstd::prelude::*;

verus! {

/// What the parser looked for and did not find.
#[derive(Debug, Clone, Copy, PartialEq, Eq, Structural)]
pub enum Expected {
    /// The keyword `clamp`.
    Clamp,
    /// `(` after `clamp`.
    OpenParen,
    /// `,` between the arguments of `clamp`.
    Comma,
    /// `)` closing a group or a `clamp` call.
    CloseParen,
}

/// Why an expression could not be parsed.
#[derive(Debug, Clone, PartialEq)]
pub enum ParseError {
    /// A character left over after a complete expression.
    UnexpectedCharacter(char),
    /// The input ended where an operand was expected.
    UnexpectedEndOfInput,
    /// A token in operand position that is not a well-formed number.
    InvalidNumber(String),
    /// A required token is missing.
    ExpectedCharacter(Expected),
}

/// A parsed expression. A number keeps the text it was written with.
#[derive(Debug, PartialEq)]
pub enum Expr {
    Number(String),
    Add(Box<Expr>, Box<Expr>),
    Sub(Box<Expr>, Box<Expr>),
    Mul(Box<Expr>, Box<Expr>),
    Div(Box<Expr>, Box<Expr>),
    /// `clamp(low, value, high)`; an open bound (`_`) is `None`.
    Clamp(Option<Box<Expr>>, Box<Expr>, Option<Box<Expr>>),
}

/// The mathematical model of an `Expr`.
pub enum Ast {
    Number(Seq<char>),
    Add(Box<Ast>, Box<Ast>),
    Sub(Box<Ast>, Box<Ast>),
    Mul(Box<Ast>, Box<Ast>),
    Div(Box<Ast>, Box<Ast>),
    Clamp(Option<Box<Ast>>, Box<Ast>, Option<Box<Ast>>),
}

/// The mathematical model of a `ParseError`.
pub enum Failure {
    UnexpectedCharacter(char),
    UnexpectedEndOfInput,
    InvalidNumber(Seq<char>),
    ExpectedCharacter(Expected),
}

impl Expr {
    pub open spec fn model(&self) -> Ast
        decreases self,
    {
        match self {
            Expr::Number(t) => Ast::Number(t@),
            Expr::Add(a, b) => Ast::Add(Box::new(a.model()), Box::new(b.model())),
            Expr::Sub(a, b) => Ast::Sub(Box::new(a.model()), Box::new(b.model())),
            Expr::Mul(a, b) => Ast::Mul(Box::new(a.model()), Box::new(b.model())),
            Expr::Div(a, b) => Ast::Div(Box::new(a.model()), Box::new(b.model())),
            Expr::Clamp(lo, v, hi) => Ast::Clamp(
                match lo {
                    Some(l) => Some(Box::new(l.model())),
                    None => None,
                },
                Box::new(v.model()),
                match hi {
                    Some(h) => Some(Box::new(h.model())),
                    None => None,
                },
            ),
        }
    }
}

impl ParseError {
    pub open spec fn model(&self) -> Failure {
        match self {
            ParseError::UnexpectedCharacter(c) => Failure::UnexpectedCharacter(*c),
            ParseError::UnexpectedEndOfInput => Failure::UnexpectedEndOfInput,
            ParseError::InvalidNumber(t) => Failure::InvalidNumber(t@),
            ParseError::ExpectedCharacter(e) => Failure::ExpectedCharacter(*e),
        }
    }
}

} // verus!
