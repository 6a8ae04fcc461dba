//! The evaluation pipeline: input validation, tokenization, parsing.
//!
//! The pipeline is single-shot and stateless: nothing survives a call, and
//! the outcome is a pure function of the input characters. What remains after
//! parsing — evaluating the tree over 64-bit floats — is left to the
//! embedding program together with the checks in [`crate::numeric`].

use vstd::prelude::*;
use crate::ast::Expr;
use crate::ast::SpecExpr;
use crate::ast::Token;
use crate::error::EvalError;
use crate::error::SpecError;
use crate::parser::eval_res_view;
use crate::parser::evaluate_tokens;
use crate::parser::spec_evaluate_tokens;
use crate::tokenizer::spec_tokenize;
use crate::tokenizer::tokenize;
use crate::tokenizer::tokenize_res_view;
use vstd::string::StrSliceExecFns;

verus! {

/// Whether the input holds one of the characters `;`, `|`, `&`, rejected as a
/// defense-in-depth measure against shell-style injection patterns.
pub open spec fn contains_unsafe_char(s: Seq<char>) -> bool {
    s.contains(';') || s.contains('|') || s.contains('&')
}

/// The outcome of the whole pipeline on an input: inputs over 1000 characters
/// are rejected before anything else, then inputs holding an unsafe
/// character, then the tokenizer and the parser decide.
pub open spec fn spec_evaluate(s: Seq<char>) -> Result<SpecExpr, SpecError> {
    if s.len() > 1000 {
        Err(SpecError::InputTooLong)
    } else if contains_unsafe_char(s) {
        Err(SpecError::UnsafeCharacter)
    } else {
        match spec_tokenize(s) {
            Ok(toks) => spec_evaluate_tokens(toks),
            Err(e) => Err(e),
        }
    }
}

fn contains_unsafe(s: &str, n: usize) -> (b: bool)
    requires
        n == s@.len(),
    ensures
        b == contains_unsafe_char(s@),
{
    let mut k: usize = 0;
    let mut found: bool = false;
    while !found && k < n
        invariant
            n == s@.len(),
            k <= n,
            found ==> contains_unsafe_char(s@),
            !found ==> forall|m: int|
                0 <= m < k ==> s@[m] != ';' && s@[m] != '|' && s@[m] != '&',
        decreases n - k + (if found { 0int } else { 1int }),
    {
        let c = s.get_char(k);
        if c == ';' || c == '|' || c == '&' {
            proof {
                if c == ';' {
                    assert(s@.contains(';')) by {
                        assert(s@[k as int] == ';');
                    }
                } else if c == '|' {
                    assert(s@.contains('|')) by {
                        assert(s@[k as int] == '|');
                    }
                } else {
                    assert(s@.contains('&')) by {
                        assert(s@[k as int] == '&');
                    }
                }
            }
            found = true;
        } else {
            k = k + 1;
        }
    }
    proof {
        if !found {
            assert(!s@.contains(';'));
            assert(!s@.contains('|'));
            assert(!s@.contains('&'));
        }
    }
    found
}

/// The expression evaluator. The whitelist of permitted functions is fixed at
/// compile time (see [`crate::tokenizer::spec_lookup_function`]), so the
/// evaluator itself carries no state.
pub struct Calculator;

impl Calculator {
    /// Creates a fresh evaluator; every instance behaves identically.
    pub fn new() -> (r: Calculator) {
        Calculator
    }

    /// Validates, tokenizes and parses the input, yielding the expression
    /// tree ready for numeric evaluation, or the first failure.
    pub fn evaluate(&self, expression: &str) -> (r: Result<Expr, EvalError>)
        ensures
            eval_res_view(r) == spec_evaluate(expression@),
    {
        let n = expression.unicode_len();
        if n > 1000 {
            return Err(EvalError::InputTooLong);
        }
        if contains_unsafe(expression, n) {
            return Err(EvalError::UnsafeCharacter);
        }
        match tokenize(expression) {
            Ok(tokens) => evaluate_tokens(&tokens),
            Err(e) => Err(e),
        }
    }
}

/// The request handed to the "calculate" operation: the expression to
/// evaluate, as text.
pub struct CalculateRequest {
    pub expression: String,
}

/// The service facade behind the remote-invocable "calculate" operation. The
/// surrounding transport supplies a request and forwards back whatever comes
/// out, mapped onto its own envelope.
#[derive(Clone)]
pub struct CalculatorService;

impl CalculatorService {
    /// Runs the pipeline on the request's expression, up to the point where
    /// numeric evaluation of the returned tree takes over.
    pub fn calculate(&self, request: &CalculateRequest) -> (r: Result<Expr, EvalError>)
        ensures
            eval_res_view(r) == spec_evaluate(request.expression@),
    {
        let calculator = Calculator::new();
        calculator.evaluate(request.expression.as_str())
    }
}

} // verus!
