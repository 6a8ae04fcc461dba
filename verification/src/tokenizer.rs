//! Tokenization: one left-to-right pass over the input characters, producing
//! the ordered token sequence or the first lexical error.

use vstd::prelude::*;
use crate::ast::MathFunc;
use crate::ast::SpecToken;
use crate::ast::Token;
use crate::ast::tokens_view;
use crate::error::EvalError;
use crate::error::SpecError;
use vstd::string::StrSliceExecFns;
use vstd::string::StringExecFns;

verus! {

/// A decimal digit.
pub open spec fn is_digit_char(c: char) -> bool {
    ('0' as u32) <= (c as u32) && (c as u32) <= ('9' as u32)
}

/// An ASCII letter, which opens an identifier.
pub open spec fn is_ascii_letter(c: char) -> bool {
    ||| (('a' as u32) <= (c as u32) && (c as u32) <= ('z' as u32))
    ||| (('A' as u32) <= (c as u32) && (c as u32) <= ('Z' as u32))
}

/// One of the five binary operator characters.
pub open spec fn is_operator_char(c: char) -> bool {
    c == '+' || c == '-' || c == '*' || c == '/' || c == '^'
}

/// The Unicode alphabetic property of a character, which continues an
/// identifier once an ASCII letter has opened it.
pub uninterp spec fn is_alphabetic_char(c: char) -> bool;

/// Relies on `char::is_alphabetic`: whether a character has the Unicode
/// alphabetic property is a fixed property of the character alone.
pub assume_specification[ char::is_alphabetic ](c: char) -> (r: bool)
    ensures
        r == is_alphabetic_char(c),
;

/// Where the numeric lexeme opened at `i` ends: the scan consumes digits, and
/// one decimal point at most (`has_dot` records whether one was already
/// consumed), and stops at the first character that fits neither.
pub open spec fn spec_number_end(s: Seq<char>, i: nat, has_dot: bool) -> nat
    decreases s.len() - i,
{
    if i >= s.len() {
        i
    } else if is_digit_char(s[i as int]) {
        spec_number_end(s, i + 1, has_dot)
    } else if s[i as int] == '.' && !has_dot {
        spec_number_end(s, i + 1, true)
    } else {
        i
    }
}

/// Whether some character of the lexeme is a digit. A lexeme without one
/// (a lone decimal point) denotes no number.
pub open spec fn seq_has_digit(l: Seq<char>) -> bool {
    exists|k: int| 0 <= k < l.len() && is_digit_char(l[k])
}

/// Where the identifier opened at `i` ends: the scan consumes the maximal run
/// of alphabetic characters.
pub open spec fn spec_identifier_end(s: Seq<char>, i: nat) -> nat
    decreases s.len() - i,
{
    if i < s.len() && is_alphabetic_char(s[i as int]) {
        spec_identifier_end(s, i + 1)
    } else {
        i
    }
}

/// The fixed function whitelist: the six permitted names, and nothing else.
pub open spec fn spec_lookup_function(name: Seq<char>) -> Option<MathFunc> {
    if name == "sqrt"@ {
        Some(MathFunc::Sqrt)
    } else if name == "abs"@ {
        Some(MathFunc::Abs)
    } else if name == "sin"@ {
        Some(MathFunc::Sin)
    } else if name == "cos"@ {
        Some(MathFunc::Cos)
    } else if name == "tan"@ {
        Some(MathFunc::Tan)
    } else if name == "ln"@ {
        Some(MathFunc::Ln)
    } else {
        None
    }
}

pub proof fn lemma_whitelisted_name_nonempty(name: Seq<char>)
    requires
        spec_lookup_function(name) is Some,
    ensures
        name.len() > 0,
{
    reveal_strlit("sqrt");
    reveal_strlit("abs");
    reveal_strlit("sin");
    reveal_strlit("cos");
    reveal_strlit("tan");
    reveal_strlit("ln");
}

/// The token sequence of the input from position `i` on, or the first lexical
/// error. Each recursive step consumes at least one character.
pub open spec fn spec_tokenize_from(s: Seq<char>, i: nat) -> Result<Seq<SpecToken>, SpecError>
    decreases s.len() - i,
{
    if i >= s.len() {
        Ok(Seq::empty())
    } else {
        let c = s[i as int];
        if c == ' ' {
            spec_tokenize_from(s, i + 1)
        } else if is_digit_char(c) || c == '.' {
            let j = spec_number_end(s, i, false);
            let lex = s.subrange(i as int, j as int);
            if !seq_has_digit(lex) {
                Err(SpecError::NumberParseError(lex))
            } else if i < j <= s.len() {
                match spec_tokenize_from(s, j) {
                    Ok(rest) => Ok(seq![SpecToken::Number(lex)] + rest),
                    Err(e) => Err(e),
                }
            } else {
                // never reached: a lexeme containing a digit is nonempty,
                // and the scan stops within the input
                Err(SpecError::NumberParseError(lex))
            }
        } else if is_operator_char(c) {
            match spec_tokenize_from(s, i + 1) {
                Ok(rest) => Ok(seq![SpecToken::Operator(c)] + rest),
                Err(e) => Err(e),
            }
        } else if c == '(' {
            match spec_tokenize_from(s, i + 1) {
                Ok(rest) => Ok(seq![SpecToken::LeftParen] + rest),
                Err(e) => Err(e),
            }
        } else if c == ')' {
            match spec_tokenize_from(s, i + 1) {
                Ok(rest) => Ok(seq![SpecToken::RightParen] + rest),
                Err(e) => Err(e),
            }
        } else if is_ascii_letter(c) {
            let j = spec_identifier_end(s, i);
            let name = s.subrange(i as int, j as int);
            if spec_lookup_function(name) is Some && i < j <= s.len() {
                match spec_tokenize_from(s, j) {
                    Ok(rest) => Ok(seq![SpecToken::Function(name)] + rest),
                    Err(e) => Err(e),
                }
            } else {
                Err(SpecError::UnknownFunction(name))
            }
        } else {
            Err(SpecError::InvalidCharacter(c))
        }
    }
}

/// The token sequence of the whole input, or the first lexical error.
pub open spec fn spec_tokenize(s: Seq<char>) -> Result<Seq<SpecToken>, SpecError> {
    spec_tokenize_from(s, 0)
}

/// Tokens already emitted, prepended to what the rest of the scan gives.
pub open spec fn prepend_tokens(
    pre: Seq<SpecToken>,
    r: Result<Seq<SpecToken>, SpecError>,
) -> Result<Seq<SpecToken>, SpecError> {
    match r {
        Ok(rest) => Ok(pre + rest),
        Err(e) => Err(e),
    }
}

/// The model of a tokenization outcome.
pub open spec fn tokenize_res_view(
    r: Result<Vec<Token>, EvalError>,
) -> Result<Seq<SpecToken>, SpecError> {
    match r {
        Ok(v) => Ok(tokens_view(v@)),
        Err(e) => Err(e@),
    }
}

fn ch_is_digit(c: char) -> (b: bool)
    ensures
        b == is_digit_char(c),
{
    ('0' as u32) <= (c as u32) && (c as u32) <= ('9' as u32)
}

fn ch_is_ascii_letter(c: char) -> (b: bool)
    ensures
        b == is_ascii_letter(c),
{
    (('a' as u32) <= (c as u32) && (c as u32) <= ('z' as u32)) || (('A' as u32) <= (c as u32)
        && (c as u32) <= ('Z' as u32))
}

fn ch_is_operator(c: char) -> (b: bool)
    ensures
        b == is_operator_char(c),
{
    c == '+' || c == '-' || c == '*' || c == '/' || c == '^'
}

fn number_end(s: &str, start: usize, n: usize) -> (j: usize)
    requires
        n == s@.len(),
        start <= n,
    ensures
        j == spec_number_end(s@, start as nat, false),
        start <= j <= n,
{
    let mut j: usize = start;
    let mut has_dot: bool = false;
    let mut done: bool = false;
    while !done && j < n
        invariant
            n == s@.len(),
            start <= j <= n,
            spec_number_end(s@, start as nat, false) == if done {
                j as nat
            } else {
                spec_number_end(s@, j as nat, has_dot)
            },
        decreases n - j + (if done { 0int } else { 1int }),
    {
        let c = s.get_char(j);
        if ch_is_digit(c) {
            j = j + 1;
        } else if c == '.' && !has_dot {
            has_dot = true;
            j = j + 1;
        } else {
            done = true;
        }
    }
    j
}

fn span_has_digit(s: &str, from: usize, to: usize) -> (b: bool)
    requires
        from <= to <= s@.len(),
    ensures
        b == seq_has_digit(s@.subrange(from as int, to as int)),
{
    let ghost sub = s@.subrange(from as int, to as int);
    let mut k: usize = from;
    let mut found: bool = false;
    while !found && k < to
        invariant
            from <= k <= to <= s@.len(),
            sub == s@.subrange(from as int, to as int),
            found ==> k < to && is_digit_char(s@[k as int]),
            !found ==> forall|m: int| from <= m < k ==> !is_digit_char(s@[m]),
        decreases to - k + (if found { 0int } else { 1int }),
    {
        if ch_is_digit(s.get_char(k)) {
            found = true;
        } else {
            k = k + 1;
        }
    }
    proof {
        if found {
            assert(sub[k - from] == s@[k as int]);
            assert(seq_has_digit(sub));
        } else {
            assert(forall|q: int| 0 <= q < sub.len() ==> sub[q] == s@[from + q]);
            assert(!seq_has_digit(sub));
        }
    }
    found
}

fn identifier_end(s: &str, start: usize, n: usize) -> (j: usize)
    requires
        n == s@.len(),
        start <= n,
    ensures
        j == spec_identifier_end(s@, start as nat),
        start <= j <= n,
{
    let mut j: usize = start;
    let mut done: bool = false;
    while !done && j < n
        invariant
            n == s@.len(),
            start <= j <= n,
            spec_identifier_end(s@, start as nat) == if done {
                j as nat
            } else {
                spec_identifier_end(s@, j as nat)
            },
        decreases n - j + (if done { 0int } else { 1int }),
    {
        let c = s.get_char(j);
        if c.is_alphabetic() {
            j = j + 1;
        } else {
            done = true;
        }
    }
    j
}

/// Which whitelisted function, if any, the identifier names.
pub fn lookup_function(name: &String) -> (r: Option<MathFunc>)
    ensures
        r == spec_lookup_function(name@),
{
    if (*name).eq(&String::from_str("sqrt")) {
        Some(MathFunc::Sqrt)
    } else if (*name).eq(&String::from_str("abs")) {
        Some(MathFunc::Abs)
    } else if (*name).eq(&String::from_str("sin")) {
        Some(MathFunc::Sin)
    } else if (*name).eq(&String::from_str("cos")) {
        Some(MathFunc::Cos)
    } else if (*name).eq(&String::from_str("tan")) {
        Some(MathFunc::Tan)
    } else if (*name).eq(&String::from_str("ln")) {
        Some(MathFunc::Ln)
    } else {
        None
    }
}

/// Converts the input into its token sequence, or reports the first lexical
/// error. Every input character is consumed by exactly one branch or causes
/// immediate failure; nothing is skipped silently but the space character.
pub fn tokenize(s: &str) -> (r: Result<Vec<Token>, EvalError>)
    ensures
        tokenize_res_view(r) == spec_tokenize(s@),
{
    let n = s.unicode_len();
    let mut tokens: Vec<Token> = Vec::new();
    let mut i: usize = 0;
    proof {
        assert(tokens_view(tokens@) =~= Seq::<SpecToken>::empty());
        match spec_tokenize_from(s@, 0) {
            Ok(rest) => {
                assert(Seq::<SpecToken>::empty() + rest =~= rest);
            },
            Err(_) => {},
        }
    }
    while i < n
        invariant
            n == s@.len(),
            i <= n,
            spec_tokenize(s@) == prepend_tokens(
                tokens_view(tokens@),
                spec_tokenize_from(s@, i as nat),
            ),
        decreases n - i,
    {
        let ghost pre = tokens_view(tokens@);
        let c = s.get_char(i);
        if c == ' ' {
            i = i + 1;
        } else if ch_is_digit(c) || c == '.' {
            let j = number_end(s, i, n);
            let digit_found = span_has_digit(s, i, j);
            let lex = String::from_str(s.substring_char(i, j));
            if !digit_found {
                return Err(EvalError::NumberParseError(lex));
            } else {
                proof {
                    let sub = s@.subrange(i as int, j as int);
                    assert(sub.len() == j - i);
                    assert(i < j);
                }
                tokens.push(Token::Number(lex));
                proof {
                    let tk = SpecToken::Number(s@.subrange(i as int, j as int));
                    assert(tokens_view(tokens@) =~= pre.push(tk));
                    assert(pre.push(tk) =~= pre + seq![tk]);
                    match spec_tokenize_from(s@, j as nat) {
                        Ok(rest) => {
                            assert(pre + (seq![tk] + rest) =~= (pre + seq![tk]) + rest);
                        },
                        Err(_) => {},
                    }
                }
                i = j;
            }
        } else if ch_is_operator(c) {
            tokens.push(Token::Operator(c));
            proof {
                let tk = SpecToken::Operator(c);
                assert(tokens_view(tokens@) =~= pre + seq![tk]);
                match spec_tokenize_from(s@, (i + 1) as nat) {
                    Ok(rest) => {
                        assert(pre + (seq![tk] + rest) =~= (pre + seq![tk]) + rest);
                    },
                    Err(_) => {},
                }
            }
            i = i + 1;
        } else if c == '(' {
            tokens.push(Token::LeftParen);
            proof {
                let tk = SpecToken::LeftParen;
                assert(tokens_view(tokens@) =~= pre + seq![tk]);
                match spec_tokenize_from(s@, (i + 1) as nat) {
                    Ok(rest) => {
                        assert(pre + (seq![tk] + rest) =~= (pre + seq![tk]) + rest);
                    },
                    Err(_) => {},
                }
            }
            i = i + 1;
        } else if c == ')' {
            tokens.push(Token::RightParen);
            proof {
                let tk = SpecToken::RightParen;
                assert(tokens_view(tokens@) =~= pre + seq![tk]);
                match spec_tokenize_from(s@, (i + 1) as nat) {
                    Ok(rest) => {
                        assert(pre + (seq![tk] + rest) =~= (pre + seq![tk]) + rest);
                    },
                    Err(_) => {},
                }
            }
            i = i + 1;
        } else if ch_is_ascii_letter(c) {
            let j = identifier_end(s, i, n);
            let name = String::from_str(s.substring_char(i, j));
            match lookup_function(&name) {
                Some(_f) => {
                    proof {
                        lemma_whitelisted_name_nonempty(s@.subrange(i as int, j as int));
                        assert(s@.subrange(i as int, j as int).len() == j - i);
                        assert(i < j);
                    }
                    tokens.push(Token::Function(name));
                    proof {
                        let tk = SpecToken::Function(s@.subrange(i as int, j as int));
                        assert(tokens_view(tokens@) =~= pre + seq![tk]);
                        match spec_tokenize_from(s@, j as nat) {
                            Ok(rest) => {
                                assert(pre + (seq![tk] + rest) =~= (pre + seq![tk]) + rest);
                            },
                            Err(_) => {},
                        }
                    }
                    i = j;
                },
                None => {
                    return Err(EvalError::UnknownFunction(name));
                },
            }
        } else {
            return Err(EvalError::InvalidCharacter(c));
        }
    }
    proof {
        assert(spec_tokenize_from(s@, i as nat) == Ok::<Seq<SpecToken>, SpecError>(
            Seq::empty(),
        ));
        assert(tokens_view(tokens@) + Seq::<SpecToken>::empty() =~= tokens_view(tokens@));
    }
    Ok(tokens)
}

} // verus!
