use calc_mcp::ast::Token;
use calc_mcp::error::EvalError;
use calc_mcp::tokenizer::tokenize;

fn num(lex: &str) -> Token {
    Token::Number(lex.to_string())
}

#[test]
fn tokens_of_a_mixed_expression() {
    let tokens = tokenize("2 + 3 * 4").unwrap();
    assert_eq!(
        tokens,
        vec![
            num("2"),
            Token::Operator('+'),
            num("3"),
            Token::Operator('*'),
            num("4"),
        ]
    );
}

#[test]
fn parentheses_and_functions_tokenize() {
    let tokens = tokenize("sqrt(25)").unwrap();
    assert_eq!(
        tokens,
        vec![
            Token::Function("sqrt".to_string()),
            Token::LeftParen,
            num("25"),
            Token::RightParen,
        ]
    );
}

#[test]
fn every_whitelisted_function_tokenizes() {
    for name in ["sqrt", "abs", "sin", "cos", "tan", "ln"] {
        let input = format!("{}(1)", name);
        let tokens = tokenize(&input).unwrap();
        assert_eq!(tokens[0], Token::Function(name.to_string()));
    }
}

#[test]
fn numeric_lexemes_are_maximal_runs_with_one_dot() {
    assert_eq!(tokenize("12.5").unwrap(), vec![num("12.5")]);
    // the second dot ends the first lexeme; the rest opens a new one
    assert_eq!(tokenize("1.2.3").unwrap(), vec![num("1.2"), num(".3")]);
    assert_eq!(tokenize(".5").unwrap(), vec![num(".5")]);
}

#[test]
fn a_lone_dot_is_a_number_parse_error() {
    let result = tokenize(".");
    assert_eq!(result.unwrap_err(), EvalError::NumberParseError(".".to_string()));
}

#[test]
fn unknown_identifier_is_rejected() {
    let result = tokenize("exec(1)");
    assert_eq!(result.unwrap_err(), EvalError::UnknownFunction("exec".to_string()));
    let result = tokenize("exp(1)");
    assert_eq!(result.unwrap_err(), EvalError::UnknownFunction("exp".to_string()));
}

#[test]
fn unrecognized_characters_are_rejected() {
    assert_eq!(tokenize("2 # 3").unwrap_err(), EvalError::InvalidCharacter('#'));
    // only the space character is skipped; other whitespace is rejected
    assert_eq!(tokenize("2\t+ 3").unwrap_err(), EvalError::InvalidCharacter('\t'));
}

#[test]
fn spaces_produce_no_tokens() {
    assert_eq!(tokenize("").unwrap(), vec![]);
    assert_eq!(tokenize("   ").unwrap(), vec![]);
    assert_eq!(
        tokenize(" 1 + 2 ").unwrap(),
        vec![num("1"), Token::Operator('+'), num("2")]
    );
}

#[test]
fn all_five_operators_tokenize() {
    let tokens = tokenize("1+2-3*4/5^6").unwrap();
    assert_eq!(
        tokens,
        vec![
            num("1"),
            Token::Operator('+'),
            num("2"),
            Token::Operator('-'),
            num("3"),
            Token::Operator('*'),
            num("4"),
            Token::Operator('/'),
            num("5"),
            Token::Operator('^'),
            num("6"),
        ]
    );
}
