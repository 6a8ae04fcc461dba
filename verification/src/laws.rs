//! Properties of the pipeline that hold for every input, stated and proved
//! over the models that the executable contracts use.

use vstd::prelude::*;
use crate::ast::BinOp;
use crate::ast::SpecExpr;
use crate::ast::SpecToken;
use crate::calculator::spec_evaluate;
use crate::error::SpecError;
use crate::tokenizer::is_digit_char;
use crate::tokenizer::seq_has_digit;
use crate::tokenizer::spec_lookup_function;
use crate::tokenizer::spec_number_end;
use crate::tokenizer::spec_tokenize;
use crate::tokenizer::spec_tokenize_from;
use crate::parser::spec_evaluate_tokens;
use crate::parser::spec_parse_factor;
use crate::parser::spec_parse_power_rest;
use crate::parser::spec_parse_term_rest;
use crate::parser::spec_parse_expression_rest;

verus! {

/// Any input longer than 1000 characters is rejected as too long before any
/// scanning; its content is irrelevant.
pub proof fn lemma_long_input_rejected(s: Seq<char>)
    requires
        s.len() > 1000,
    ensures
        spec_evaluate(s) == Err::<SpecExpr, SpecError>(SpecError::InputTooLong),
{
}

/// Any input within the length cap that contains `;`, `|` or `&` anywhere is
/// rejected as unsafe, regardless of the arithmetic around the character.
/// (Inputs over the cap are rejected as too long first.)
pub proof fn lemma_unsafe_character_rejected(s: Seq<char>)
    requires
        s.len() <= 1000,
        s.contains(';') || s.contains('|') || s.contains('&'),
    ensures
        spec_evaluate(s) == Err::<SpecExpr, SpecError>(SpecError::UnsafeCharacter),
{
}

/// Evaluation has no hidden state: its outcome is a function of the input
/// characters alone, so repeated runs on the same input agree.
pub proof fn lemma_evaluate_deterministic(
    s: Seq<char>,
    r1: Result<SpecExpr, SpecError>,
    r2: Result<SpecExpr, SpecError>,
)
    requires
        r1 == spec_evaluate(s),
        r2 == spec_evaluate(s),
    ensures
        r1 == r2,
{
}

/// Every token of a token sequence is a function token only if its name is a
/// whitelist key.
pub open spec fn all_functions_whitelisted(toks: Seq<SpecToken>) -> bool {
    forall|k: int|
        0 <= k < toks.len() ==> ((#[trigger] toks[k]) matches SpecToken::Function(name)
            ==> spec_lookup_function(name) is Some)
}

proof fn lemma_tokenize_from_functions_whitelisted(s: Seq<char>, i: nat)
    ensures
        spec_tokenize_from(s, i) matches Ok(toks) ==> all_functions_whitelisted(toks),
    decreases s.len() - i,
{
    if i >= s.len() {
        assert(spec_tokenize_from(s, i) == Ok::<Seq<SpecToken>, SpecError>(Seq::empty()));
    } else {
        let c = s[i as int];
        if c == ' ' {
            lemma_tokenize_from_functions_whitelisted(s, i + 1);
        } else if is_digit_char(c) || c == '.' {
            let j = spec_number_end(s, i, false);
            let lex = s.subrange(i as int, j as int);
            if seq_has_digit(lex) && i < j <= s.len() {
                lemma_tokenize_from_functions_whitelisted(s, j);
                match spec_tokenize_from(s, j) {
                    Ok(rest) => {
                    let whole = seq![SpecToken::Number(lex)] + rest;
                    assert forall|k: int|
                        0 <= k < whole.len() implies ((#[trigger] whole[k]) matches SpecToken::Function(name)
                        ==> spec_lookup_function(name) is Some) by {
                        if k > 0 {
                            assert(whole[k] == rest[k - 1]);
                        }
                    }
                    },
                    Err(_) => {},
                }
            }
        } else if c == '(' || c == ')' || c == '+' || c == '-' || c == '*' || c == '/' || c
            == '^' {
            lemma_tokenize_from_functions_whitelisted(s, i + 1);
            match spec_tokenize_from(s, (i + 1) as nat) {
                Ok(rest) => {
                let first = if c == '(' {
                    SpecToken::LeftParen
                } else if c == ')' {
                    SpecToken::RightParen
                } else {
                    SpecToken::Operator(c)
                };
                let whole = seq![first] + rest;
                assert forall|k: int|
                    0 <= k < whole.len() implies ((#[trigger] whole[k]) matches SpecToken::Function(name)
                    ==> spec_lookup_function(name) is Some) by {
                    if k > 0 {
                        assert(whole[k] == rest[k - 1]);
                    }
                }
                },
                Err(_) => {},
            }
        } else {
            let j = crate::tokenizer::spec_identifier_end(s, i);
            let name = s.subrange(i as int, j as int);
            if crate::tokenizer::is_ascii_letter(c) && spec_lookup_function(name) is Some && i < j
                <= s.len() {
                lemma_tokenize_from_functions_whitelisted(s, j);
                match spec_tokenize_from(s, j) {
                    Ok(rest) => {
                    let whole = seq![SpecToken::Function(name)] + rest;
                    assert forall|k: int|
                        0 <= k < whole.len() implies ((#[trigger] whole[k]) matches SpecToken::Function(n2)
                        ==> spec_lookup_function(n2) is Some) by {
                        if k > 0 {
                            assert(whole[k] == rest[k - 1]);
                        } else {
                            assert(whole[0] == SpecToken::Function(name));
                        }
                    }
                    },
                    Err(_) => {},
                }
            }
        }
    }
}

/// Unary minus binds tighter than the power operator: `- a ^ b` parses as
/// `(-a) ^ b`, whatever the numeric lexemes are.
pub proof fn lemma_unary_minus_binds_tighter_than_power(a: Seq<char>, b: Seq<char>)
    ensures
        ({
            let t = seq![
                SpecToken::Operator('-'),
                SpecToken::Number(a),
                SpecToken::Operator('^'),
                SpecToken::Number(b),
            ];
            spec_evaluate_tokens(t) == Ok::<SpecExpr, SpecError>(
                SpecExpr::Binary(
                    BinOp::Pow,
                    Box::new(SpecExpr::Negate(Box::new(SpecExpr::Number(a)))),
                    Box::new(SpecExpr::Number(b)),
                ),
            )
        }),
{
    let t = seq![
        SpecToken::Operator('-'),
        SpecToken::Number(a),
        SpecToken::Operator('^'),
        SpecToken::Number(b),
    ];
    reveal_with_fuel(spec_parse_factor, 3);
    reveal_with_fuel(spec_parse_power_rest, 3);
    reveal_with_fuel(spec_parse_term_rest, 2);
    reveal_with_fuel(spec_parse_expression_rest, 2);
    assert(t.len() == 4);
    assert(spec_parse_factor(t, 1) == Ok::<(SpecExpr, nat), SpecError>((
        SpecExpr::Number(a),
        2nat,
    )));
    assert(spec_parse_factor(t, 3) == Ok::<(SpecExpr, nat), SpecError>((
        SpecExpr::Number(b),
        4nat,
    )));
    let neg = SpecExpr::Negate(Box::new(SpecExpr::Number(a)));
    assert(spec_parse_factor(t, 0) == Ok::<(SpecExpr, nat), SpecError>((neg, 2nat)));
    let pow = SpecExpr::Binary(BinOp::Pow, Box::new(neg), Box::new(SpecExpr::Number(b)));
    assert(spec_parse_power_rest(t, neg, 2) == Ok::<(SpecExpr, nat), SpecError>((pow, 4nat)));
    assert(crate::parser::spec_parse_power(t, 0) == Ok::<(SpecExpr, nat), SpecError>((
        pow,
        4nat,
    )));
    assert(spec_parse_term_rest(t, pow, 4) == Ok::<(SpecExpr, nat), SpecError>((pow, 4nat)));
    assert(crate::parser::spec_parse_term(t, 0) == Ok::<(SpecExpr, nat), SpecError>((
        pow,
        4nat,
    )));
    assert(spec_parse_expression_rest(t, pow, 4) == Ok::<(SpecExpr, nat), SpecError>((
        pow,
        4nat,
    )));
    assert(crate::parser::spec_parse_expression(t, 0) == Ok::<(SpecExpr, nat), SpecError>((
        pow,
        4nat,
    )));
}

/// The power chain folds to the left: `a ^ b ^ c` parses as `(a ^ b) ^ c`,
/// not `a ^ (b ^ c)`, whatever the numeric lexemes are.
pub proof fn lemma_power_left_associative(a: Seq<char>, b: Seq<char>, c: Seq<char>)
    ensures
        ({
            let t = seq![
                SpecToken::Number(a),
                SpecToken::Operator('^'),
                SpecToken::Number(b),
                SpecToken::Operator('^'),
                SpecToken::Number(c),
            ];
            spec_evaluate_tokens(t) == Ok::<SpecExpr, SpecError>(
                SpecExpr::Binary(
                    BinOp::Pow,
                    Box::new(
                        SpecExpr::Binary(
                            BinOp::Pow,
                            Box::new(SpecExpr::Number(a)),
                            Box::new(SpecExpr::Number(b)),
                        ),
                    ),
                    Box::new(SpecExpr::Number(c)),
                ),
            )
        }),
{
    let t = seq![
        SpecToken::Number(a),
        SpecToken::Operator('^'),
        SpecToken::Number(b),
        SpecToken::Operator('^'),
        SpecToken::Number(c),
    ];
    reveal_with_fuel(spec_parse_factor, 4);
    reveal_with_fuel(spec_parse_power_rest, 4);
    reveal_with_fuel(spec_parse_term_rest, 2);
    reveal_with_fuel(spec_parse_expression_rest, 2);
    assert(t.len() == 5);
    assert(spec_parse_factor(t, 0) == Ok::<(SpecExpr, nat), SpecError>((
        SpecExpr::Number(a),
        1nat,
    )));
    assert(spec_parse_factor(t, 2) == Ok::<(SpecExpr, nat), SpecError>((
        SpecExpr::Number(b),
        3nat,
    )));
    assert(spec_parse_factor(t, 4) == Ok::<(SpecExpr, nat), SpecError>((
        SpecExpr::Number(c),
        5nat,
    )));
    let pab = SpecExpr::Binary(
        BinOp::Pow,
        Box::new(SpecExpr::Number(a)),
        Box::new(SpecExpr::Number(b)),
    );
    let pabc = SpecExpr::Binary(BinOp::Pow, Box::new(pab), Box::new(SpecExpr::Number(c)));
    assert(spec_parse_power_rest(t, pabc, 5) == Ok::<(SpecExpr, nat), SpecError>((pabc, 5nat)));
    assert(spec_parse_power_rest(t, pab, 3) == Ok::<(SpecExpr, nat), SpecError>((pabc, 5nat)));
    assert(spec_parse_power_rest(t, SpecExpr::Number(a), 1) == Ok::<(SpecExpr, nat), SpecError>((
        pabc,
        5nat,
    )));
    assert(crate::parser::spec_parse_power(t, 0) == Ok::<(SpecExpr, nat), SpecError>((
        pabc,
        5nat,
    )));
    assert(spec_parse_term_rest(t, pabc, 5) == Ok::<(SpecExpr, nat), SpecError>((pabc, 5nat)));
    assert(crate::parser::spec_parse_term(t, 0) == Ok::<(SpecExpr, nat), SpecError>((
        pabc,
        5nat,
    )));
    assert(spec_parse_expression_rest(t, pabc, 5) == Ok::<(SpecExpr, nat), SpecError>((
        pabc,
        5nat,
    )));
    assert(crate::parser::spec_parse_expression(t, 0) == Ok::<(SpecExpr, nat), SpecError>((
        pabc,
        5nat,
    )));
}

/// Multiplication binds tighter than addition: `a + b * c` parses as
/// `a + (b * c)`, whatever the numeric lexemes are.
pub proof fn lemma_multiplication_binds_tighter(a: Seq<char>, b: Seq<char>, c: Seq<char>)
    ensures
        ({
            let t = seq![
                SpecToken::Number(a),
                SpecToken::Operator('+'),
                SpecToken::Number(b),
                SpecToken::Operator('*'),
                SpecToken::Number(c),
            ];
            spec_evaluate_tokens(t) == Ok::<SpecExpr, SpecError>(
                SpecExpr::Binary(
                    BinOp::Add,
                    Box::new(SpecExpr::Number(a)),
                    Box::new(
                        SpecExpr::Binary(
                            BinOp::Mul,
                            Box::new(SpecExpr::Number(b)),
                            Box::new(SpecExpr::Number(c)),
                        ),
                    ),
                ),
            )
        }),
{
    let t = seq![
        SpecToken::Number(a),
        SpecToken::Operator('+'),
        SpecToken::Number(b),
        SpecToken::Operator('*'),
        SpecToken::Number(c),
    ];
    reveal_with_fuel(spec_parse_factor, 4);
    reveal_with_fuel(spec_parse_power_rest, 4);
    reveal_with_fuel(spec_parse_term_rest, 4);
    reveal_with_fuel(spec_parse_expression_rest, 3);
    reveal_with_fuel(crate::parser::spec_parse_power, 3);
    reveal_with_fuel(crate::parser::spec_parse_term, 3);
    assert(t.len() == 5);
    assert(spec_parse_factor(t, 0) == Ok::<(SpecExpr, nat), SpecError>((
        SpecExpr::Number(a),
        1nat,
    )));
    assert(spec_parse_factor(t, 2) == Ok::<(SpecExpr, nat), SpecError>((
        SpecExpr::Number(b),
        3nat,
    )));
    assert(spec_parse_factor(t, 4) == Ok::<(SpecExpr, nat), SpecError>((
        SpecExpr::Number(c),
        5nat,
    )));
    let ea = SpecExpr::Number(a);
    let eb = SpecExpr::Number(b);
    let ec = SpecExpr::Number(c);
    let mbc = SpecExpr::Binary(BinOp::Mul, Box::new(eb), Box::new(ec));
    let whole = SpecExpr::Binary(BinOp::Add, Box::new(ea), Box::new(mbc));
    assert(spec_parse_power_rest(t, ea, 1) == Ok::<(SpecExpr, nat), SpecError>((ea, 1nat)));
    assert(crate::parser::spec_parse_power(t, 0) == Ok::<(SpecExpr, nat), SpecError>((
        ea,
        1nat,
    )));
    assert(spec_parse_term_rest(t, ea, 1) == Ok::<(SpecExpr, nat), SpecError>((ea, 1nat)));
    assert(crate::parser::spec_parse_term(t, 0) == Ok::<(SpecExpr, nat), SpecError>((
        ea,
        1nat,
    )));
    assert(spec_parse_power_rest(t, eb, 3) == Ok::<(SpecExpr, nat), SpecError>((eb, 3nat)));
    assert(crate::parser::spec_parse_power(t, 2) == Ok::<(SpecExpr, nat), SpecError>((
        eb,
        3nat,
    )));
    assert(spec_parse_power_rest(t, ec, 5) == Ok::<(SpecExpr, nat), SpecError>((ec, 5nat)));
    assert(crate::parser::spec_parse_power(t, 4) == Ok::<(SpecExpr, nat), SpecError>((
        ec,
        5nat,
    )));
    assert(spec_parse_term_rest(t, mbc, 5) == Ok::<(SpecExpr, nat), SpecError>((mbc, 5nat)));
    assert(spec_parse_term_rest(t, eb, 3) == Ok::<(SpecExpr, nat), SpecError>((mbc, 5nat)));
    assert(crate::parser::spec_parse_term(t, 2) == Ok::<(SpecExpr, nat), SpecError>((
        mbc,
        5nat,
    )));
    assert(spec_parse_expression_rest(t, whole, 5) == Ok::<(SpecExpr, nat), SpecError>((
        whole,
        5nat,
    )));
    assert(spec_parse_expression_rest(t, ea, 1) == Ok::<(SpecExpr, nat), SpecError>((
        whole,
        5nat,
    )));
    assert(crate::parser::spec_parse_expression(t, 0) == Ok::<(SpecExpr, nat), SpecError>((
        whole,
        5nat,
    )));
}

/// A `Function` token never exists in a tokenization unless its name was a
/// whitelist key at tokenize time.
pub proof fn lemma_function_tokens_whitelisted(s: Seq<char>, toks: Seq<SpecToken>)
    requires
        spec_tokenize(s) == Ok::<Seq<SpecToken>, SpecError>(toks),
    ensures
        all_functions_whitelisted(toks),
{
    lemma_tokenize_from_functions_whitelisted(s, 0);
}

} // verus!
