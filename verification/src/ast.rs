//! Lexical tokens and the expression tree produced by the parser.

use vstd::prelude::*;

verus! {

/// The fixed whitelist of single-argument functions an expression may invoke.
#[derive(Debug, Clone, Copy, PartialEq, Eq)]
pub enum MathFunc {
    Sqrt,
    Abs,
    Sin,
    Cos,
    Tan,
    Ln,
}

/// A binary operator of the expression grammar.
#[derive(Debug, Clone, Copy, PartialEq, Eq)]
pub enum BinOp {
    Add,
    Sub,
    Mul,
    Div,
    Pow,
}

/// A lexical token. A `Number` carries its lexeme (a run of digits with at
/// most one decimal point) rather than a parsed value; the embedding program
/// converts lexemes to 64-bit floats when it evaluates the parsed tree.
#[derive(Debug, Clone, PartialEq)]
pub enum Token {
    Number(String),
    Operator(char),
    Function(String),
    LeftParen,
    RightParen,
}

/// Mathematical model of a [`Token`]: lexemes become character sequences.
pub enum SpecToken {
    Number(Seq<char>),
    Operator(char),
    Function(Seq<char>),
    LeftParen,
    RightParen,
}

impl View for Token {
    type V = SpecToken;

    open spec fn view(&self) -> SpecToken {
        match self {
            Token::Number(lex) => SpecToken::Number(lex@),
            Token::Operator(c) => SpecToken::Operator(*c),
            Token::Function(name) => SpecToken::Function(name@),
            Token::LeftParen => SpecToken::LeftParen,
            Token::RightParen => SpecToken::RightParen,
        }
    }
}

/// The model of a token sequence.
pub open spec fn tokens_view(ts: Seq<Token>) -> Seq<SpecToken> {
    Seq::new(ts.len(), |i: int| ts[i]@)
}

/// The expression tree produced by the parser. A `Number` leaf keeps the
/// token's lexeme; `Negate` is unary minus (unary plus adds no node).
#[derive(Debug, PartialEq)]
pub enum Expr {
    Number(String),
    Negate(Box<Expr>),
    Binary(BinOp, Box<Expr>, Box<Expr>),
    Apply(MathFunc, Box<Expr>),
}

/// Mathematical model of an [`Expr`].
pub enum SpecExpr {
    Number(Seq<char>),
    Negate(Box<SpecExpr>),
    Binary(BinOp, Box<SpecExpr>, Box<SpecExpr>),
    Apply(MathFunc, Box<SpecExpr>),
}

/// The model of an expression tree, defined by structural recursion.
pub open spec fn expr_view(e: Expr) -> SpecExpr
    decreases e,
{
    match e {
        Expr::Number(lex) => SpecExpr::Number(lex@),
        Expr::Negate(inner) => SpecExpr::Negate(Box::new(expr_view(*inner))),
        Expr::Binary(op, left, right) => SpecExpr::Binary(
            op,
            Box::new(expr_view(*left)),
            Box::new(expr_view(*right)),
        ),
        Expr::Apply(func, arg) => SpecExpr::Apply(func, Box::new(expr_view(*arg))),
    }
}

impl View for Expr {
    type V = SpecExpr;

    open spec fn view(&self) -> SpecExpr {
        expr_view(*self)
    }
}

} // verus!
