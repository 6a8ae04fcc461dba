//! Recursive-descent parsing of the token sequence into an expression tree.
//!
//! The grammar has four precedence levels, lowest first:
//! ```text
//! expression := term (('+' | '-') term)*      // left-associative
//! term       := power (('*' | '/') power)*    // left-associative
//! power      := factor ('^' factor)*          // left-associative
//! factor     := NUMBER | '-' factor | '+' factor
//!             | '(' expression ')' | FUNCTION '(' expression ')'
//! ```
//! The power chain is deliberately parsed left-to-right, and unary signs bind
//! tighter than any binary operator; both are observable behaviour and must
//! not be "corrected". Every parse function returns the position immediately
//! after the construct it consumed, strictly beyond where it started.

use vstd::prelude::*;
use crate::ast::BinOp;
use crate::ast::Expr;
use crate::ast::SpecExpr;
use crate::ast::SpecToken;
use crate::ast::Token;
use crate::ast::expr_view;
use crate::ast::tokens_view;
use crate::error::EvalError;
use crate::error::SpecError;
use crate::tokenizer::lookup_function;
use crate::tokenizer::spec_lookup_function;

verus! {

/// One expression, parsed from `pos`: a term followed by any number of
/// additions and subtractions, folded to the left.
pub open spec fn spec_parse_expression(t: Seq<SpecToken>, pos: nat) -> Result<
    (SpecExpr, nat),
    SpecError,
>
    decreases t.len() - pos, 9nat,
{
    match spec_parse_term(t, pos) {
        Ok((left, p)) => {
            if pos <= p <= t.len() {
                spec_parse_expression_rest(t, left, p)
            } else {
                // never reached: parsing advances and stays within the tokens
                Err(SpecError::UnexpectedEndOfInput)
            }
        },
        Err(e) => Err(e),
    }
}

/// The additions and subtractions that continue an expression whose left
/// operand is already parsed.
pub open spec fn spec_parse_expression_rest(t: Seq<SpecToken>, left: SpecExpr, pos: nat) -> Result<
    (SpecExpr, nat),
    SpecError,
>
    decreases t.len() - pos, 8nat,
{
    if pos < t.len() && (t[pos as int] == SpecToken::Operator('+') || t[pos as int]
        == SpecToken::Operator('-')) {
        let op = if t[pos as int] == SpecToken::Operator('+') {
            BinOp::Add
        } else {
            BinOp::Sub
        };
        match spec_parse_term(t, pos + 1) {
            Ok((right, p2)) => {
                if pos < p2 <= t.len() {
                    spec_parse_expression_rest(
                        t,
                        SpecExpr::Binary(op, Box::new(left), Box::new(right)),
                        p2,
                    )
                } else {
                    // never reached: parsing advances and stays within the tokens
                    Err(SpecError::UnexpectedEndOfInput)
                }
            },
            Err(e) => Err(e),
        }
    } else {
        Ok((left, pos))
    }
}

/// One term: a power followed by any number of multiplications and divisions,
/// folded to the left.
pub open spec fn spec_parse_term(t: Seq<SpecToken>, pos: nat) -> Result<(SpecExpr, nat), SpecError>
    decreases t.len() - pos, 6nat,
{
    match spec_parse_power(t, pos) {
        Ok((left, p)) => {
            if pos <= p <= t.len() {
                spec_parse_term_rest(t, left, p)
            } else {
                // never reached: parsing advances and stays within the tokens
                Err(SpecError::UnexpectedEndOfInput)
            }
        },
        Err(e) => Err(e),
    }
}

/// The multiplications and divisions that continue a term.
pub open spec fn spec_parse_term_rest(t: Seq<SpecToken>, left: SpecExpr, pos: nat) -> Result<
    (SpecExpr, nat),
    SpecError,
>
    decreases t.len() - pos, 5nat,
{
    if pos < t.len() && (t[pos as int] == SpecToken::Operator('*') || t[pos as int]
        == SpecToken::Operator('/')) {
        let op = if t[pos as int] == SpecToken::Operator('*') {
            BinOp::Mul
        } else {
            BinOp::Div
        };
        match spec_parse_power(t, pos + 1) {
            Ok((right, p2)) => {
                if pos < p2 <= t.len() {
                    spec_parse_term_rest(
                        t,
                        SpecExpr::Binary(op, Box::new(left), Box::new(right)),
                        p2,
                    )
                } else {
                    // never reached: parsing advances and stays within the tokens
                    Err(SpecError::UnexpectedEndOfInput)
                }
            },
            Err(e) => Err(e),
        }
    } else {
        Ok((left, pos))
    }
}

/// One power: a factor followed by any number of exponentiations, folded to
/// the left, so that `a ^ b ^ c` parses as `(a ^ b) ^ c`.
pub open spec fn spec_parse_power(t: Seq<SpecToken>, pos: nat) -> Result<(SpecExpr, nat), SpecError>
    decreases t.len() - pos, 4nat,
{
    match spec_parse_factor(t, pos) {
        Ok((left, p)) => {
            if pos <= p <= t.len() {
                spec_parse_power_rest(t, left, p)
            } else {
                // never reached: parsing advances and stays within the tokens
                Err(SpecError::UnexpectedEndOfInput)
            }
        },
        Err(e) => Err(e),
    }
}

/// The exponentiations that continue a power.
pub open spec fn spec_parse_power_rest(t: Seq<SpecToken>, left: SpecExpr, pos: nat) -> Result<
    (SpecExpr, nat),
    SpecError,
>
    decreases t.len() - pos, 3nat,
{
    if pos < t.len() && t[pos as int] == SpecToken::Operator('^') {
        match spec_parse_factor(t, pos + 1) {
            Ok((right, p2)) => {
                if pos < p2 <= t.len() {
                    spec_parse_power_rest(
                        t,
                        SpecExpr::Binary(BinOp::Pow, Box::new(left), Box::new(right)),
                        p2,
                    )
                } else {
                    // never reached: parsing advances and stays within the tokens
                    Err(SpecError::UnexpectedEndOfInput)
                }
            },
            Err(e) => Err(e),
        }
    } else {
        Ok((left, pos))
    }
}

/// One factor: a number, a signed factor, a parenthesized expression, or a
/// function applied to one parenthesized argument.
pub open spec fn spec_parse_factor(t: Seq<SpecToken>, pos: nat) -> Result<
    (SpecExpr, nat),
    SpecError,
>
    decreases t.len() - pos, 0nat,
{
    if pos >= t.len() {
        Err(SpecError::UnexpectedEndOfInput)
    } else {
        match t[pos as int] {
            SpecToken::Number(lex) => Ok((SpecExpr::Number(lex), pos + 1)),
            SpecToken::Operator(c) => {
                if c == '-' {
                    match spec_parse_factor(t, pos + 1) {
                        Ok((inner, p)) => Ok((SpecExpr::Negate(Box::new(inner)), p)),
                        Err(e) => Err(e),
                    }
                } else if c == '+' {
                    spec_parse_factor(t, pos + 1)
                } else {
                    Err(SpecError::UnexpectedToken(SpecToken::Operator(c)))
                }
            },
            SpecToken::LeftParen => {
                match spec_parse_expression(t, pos + 1) {
                    Ok((inner, p)) => {
                        if p < t.len() && t[p as int] == SpecToken::RightParen {
                            Ok((inner, p + 1))
                        } else {
                            Err(SpecError::UnmatchedParenthesis)
                        }
                    },
                    Err(e) => Err(e),
                }
            },
            SpecToken::Function(name) => {
                if pos + 1 >= t.len() || t[pos + 1 as int] != SpecToken::LeftParen {
                    Err(SpecError::MissingFunctionParenthesis)
                } else {
                    match spec_parse_expression(t, pos + 2) {
                        Ok((arg, p)) => {
                            if p < t.len() && t[p as int] == SpecToken::RightParen {
                                match spec_lookup_function(name) {
                                    Some(f) => Ok((SpecExpr::Apply(f, Box::new(arg)), p + 1)),
                                    None => Err(SpecError::UnknownFunction(name)),
                                }
                            } else {
                                Err(SpecError::MissingFunctionClosingParenthesis)
                            }
                        },
                        Err(e) => Err(e),
                    }
                }
            },
            SpecToken::RightParen => Err(SpecError::UnexpectedToken(SpecToken::RightParen)),
        }
    }
}

/// Evaluation of a token sequence up to numeric computation: empty input is
/// rejected, and otherwise the top-level expression parse decides. Tokens
/// left over after the top-level expression are deliberately discarded, as
/// the final cursor position is dropped.
pub open spec fn spec_evaluate_tokens(t: Seq<SpecToken>) -> Result<SpecExpr, SpecError> {
    if t.len() == 0 {
        Err(SpecError::EmptyExpression)
    } else {
        match spec_parse_expression(t, 0) {
            Ok((e, _p)) => Ok(e),
            Err(e) => Err(e),
        }
    }
}

/// The model of a parse outcome carrying the advanced cursor.
pub open spec fn parse_res_view(r: Result<(Expr, usize), EvalError>) -> Result<
    (SpecExpr, nat),
    SpecError,
> {
    match r {
        Ok((e, p)) => Ok((expr_view(e), p as nat)),
        Err(e) => Err(e@),
    }
}

/// The model of an evaluation outcome.
pub open spec fn eval_res_view(r: Result<Expr, EvalError>) -> Result<SpecExpr, SpecError> {
    match r {
        Ok(e) => Ok(expr_view(e)),
        Err(e) => Err(e@),
    }
}

/// Parses one expression starting at `pos`.
pub fn parse_expression(t: &Vec<Token>, pos: usize) -> (r: Result<(Expr, usize), EvalError>)
    requires
        pos <= t@.len(),
    ensures
        parse_res_view(r) == spec_parse_expression(tokens_view(t@), pos as nat),
        r matches Ok((e, p)) ==> pos < p <= t@.len(),
    decreases t@.len() - pos, 9int,
{
    let (mut left, mut p) = match parse_term(t, pos) {
        Ok(x) => x,
        Err(e) => {
            return Err(e);
        },
    };
    let mut done: bool = false;
    while !done
        invariant
            pos < p <= t@.len(),
            spec_parse_expression(tokens_view(t@), pos as nat) == (if done {
                Ok::<(SpecExpr, nat), SpecError>((expr_view(left), p as nat))
            } else {
                spec_parse_expression_rest(tokens_view(t@), expr_view(left), p as nat)
            }),
        decreases t@.len() - p + (if done { 0int } else { 1int }),
    {
        if p >= t.len() {
            done = true;
        } else {
            let tk = &t[p];
            let mut op: Option<BinOp> = None;
            if let Token::Operator(c) = tk {
                if *c == '+' {
                    op = Some(BinOp::Add);
                } else if *c == '-' {
                    op = Some(BinOp::Sub);
                }
            }
            match op {
                Some(binop) => {
                    match parse_term(t, p + 1) {
                        Ok((right, p2)) => {
                            left = Expr::Binary(binop, Box::new(left), Box::new(right));
                            p = p2;
                        },
                        Err(e) => {
                            return Err(e);
                        },
                    }
                },
                None => {
                    done = true;
                },
            }
        }
    }
    Ok((left, p))
}

/// Parses one term starting at `pos`.
pub fn parse_term(t: &Vec<Token>, pos: usize) -> (r: Result<(Expr, usize), EvalError>)
    requires
        pos <= t@.len(),
    ensures
        parse_res_view(r) == spec_parse_term(tokens_view(t@), pos as nat),
        r matches Ok((e, p)) ==> pos < p <= t@.len(),
    decreases t@.len() - pos, 6int,
{
    let (mut left, mut p) = match parse_power(t, pos) {
        Ok(x) => x,
        Err(e) => {
            return Err(e);
        },
    };
    let mut done: bool = false;
    while !done
        invariant
            pos < p <= t@.len(),
            spec_parse_term(tokens_view(t@), pos as nat) == (if done {
                Ok::<(SpecExpr, nat), SpecError>((expr_view(left), p as nat))
            } else {
                spec_parse_term_rest(tokens_view(t@), expr_view(left), p as nat)
            }),
        decreases t@.len() - p + (if done { 0int } else { 1int }),
    {
        if p >= t.len() {
            done = true;
        } else {
            let tk = &t[p];
            let mut op: Option<BinOp> = None;
            if let Token::Operator(c) = tk {
                if *c == '*' {
                    op = Some(BinOp::Mul);
                } else if *c == '/' {
                    op = Some(BinOp::Div);
                }
            }
            match op {
                Some(binop) => {
                    match parse_power(t, p + 1) {
                        Ok((right, p2)) => {
                            left = Expr::Binary(binop, Box::new(left), Box::new(right));
                            p = p2;
                        },
                        Err(e) => {
                            return Err(e);
                        },
                    }
                },
                None => {
                    done = true;
                },
            }
        }
    }
    Ok((left, p))
}

/// Parses one power starting at `pos`.
pub fn parse_power(t: &Vec<Token>, pos: usize) -> (r: Result<(Expr, usize), EvalError>)
    requires
        pos <= t@.len(),
    ensures
        parse_res_view(r) == spec_parse_power(tokens_view(t@), pos as nat),
        r matches Ok((e, p)) ==> pos < p <= t@.len(),
    decreases t@.len() - pos, 4int,
{
    let (mut left, mut p) = match parse_factor(t, pos) {
        Ok(x) => x,
        Err(e) => {
            return Err(e);
        },
    };
    let mut done: bool = false;
    while !done
        invariant
            pos < p <= t@.len(),
            spec_parse_power(tokens_view(t@), pos as nat) == (if done {
                Ok::<(SpecExpr, nat), SpecError>((expr_view(left), p as nat))
            } else {
                spec_parse_power_rest(tokens_view(t@), expr_view(left), p as nat)
            }),
        decreases t@.len() - p + (if done { 0int } else { 1int }),
    {
        if p >= t.len() {
            done = true;
        } else {
            let tk = &t[p];
            let mut is_pow: bool = false;
            if let Token::Operator(c) = tk {
                if *c == '^' {
                    is_pow = true;
                }
            }
            if is_pow {
                match parse_factor(t, p + 1) {
                    Ok((right, p2)) => {
                        left = Expr::Binary(BinOp::Pow, Box::new(left), Box::new(right));
                        p = p2;
                    },
                    Err(e) => {
                        return Err(e);
                    },
                }
            } else {
                done = true;
            }
        }
    }
    Ok((left, p))
}

/// Parses one factor starting at `pos`.
pub fn parse_factor(t: &Vec<Token>, pos: usize) -> (r: Result<(Expr, usize), EvalError>)
    requires
        pos <= t@.len(),
    ensures
        parse_res_view(r) == spec_parse_factor(tokens_view(t@), pos as nat),
        r matches Ok((e, p)) ==> pos < p <= t@.len(),
    decreases t@.len() - pos, 0int,
{
    if pos >= t.len() {
        return Err(EvalError::UnexpectedEndOfInput);
    }
    let tk = &t[pos];
    match tk {
        Token::Number(lex) => Ok((Expr::Number(lex.clone()), pos + 1)),
        Token::Operator(c) => {
            if *c == '-' {
                match parse_factor(t, pos + 1) {
                    Ok((inner, p)) => Ok((Expr::Negate(Box::new(inner)), p)),
                    Err(e) => Err(e),
                }
            } else if *c == '+' {
                parse_factor(t, pos + 1)
            } else {
                Err(EvalError::UnexpectedToken(Token::Operator(*c)))
            }
        },
        Token::LeftParen => {
            match parse_expression(t, pos + 1) {
                Ok((inner, p)) => {
                    if p < t.len() && matches!(&t[p], Token::RightParen) {
                        Ok((inner, p + 1))
                    } else {
                        Err(EvalError::UnmatchedParenthesis)
                    }
                },
                Err(e) => Err(e),
            }
        },
        Token::Function(name) => {
            if pos + 1 >= t.len() || !matches!(&t[pos + 1], Token::LeftParen) {
                return Err(EvalError::MissingFunctionParenthesis);
            }
            match parse_expression(t, pos + 2) {
                Ok((arg, p)) => {
                    if p < t.len() && matches!(&t[p], Token::RightParen) {
                        match lookup_function(name) {
                            Some(f) => Ok((Expr::Apply(f, Box::new(arg)), p + 1)),
                            None => Err(EvalError::UnknownFunction(name.clone())),
                        }
                    } else {
                        Err(EvalError::MissingFunctionClosingParenthesis)
                    }
                },
                Err(e) => Err(e),
            }
        },
        Token::RightParen => Err(EvalError::UnexpectedToken(Token::RightParen)),
    }
}

/// Turns a token sequence into its expression tree, rejecting an empty
/// sequence; tokens after the top-level expression are discarded.
pub fn evaluate_tokens(t: &Vec<Token>) -> (r: Result<Expr, EvalError>)
    ensures
        eval_res_view(r) == spec_evaluate_tokens(tokens_view(t@)),
{
    if t.len() == 0 {
        return Err(EvalError::EmptyExpression);
    }
    match parse_expression(t, 0) {
        Ok((e, _p)) => Ok(e),
        Err(e) => Err(e),
    }
}

} // verus!
