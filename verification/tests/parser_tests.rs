use calc_mcp::ast::BinOp;
use calc_mcp::ast::Expr;
use calc_mcp::ast::MathFunc;
use calc_mcp::ast::Token;
use calc_mcp::calculator::Calculator;
use calc_mcp::error::EvalError;

fn num(lex: &str) -> Expr {
    Expr::Number(lex.to_string())
}

fn bin(op: BinOp, l: Expr, r: Expr) -> Expr {
    Expr::Binary(op, Box::new(l), Box::new(r))
}

fn parse(input: &str) -> Result<Expr, EvalError> {
    Calculator::new().evaluate(input)
}

#[test]
fn multiplication_binds_tighter_than_addition() {
    let tree = parse("2 + 3 * 4").unwrap();
    assert_eq!(tree, bin(BinOp::Add, num("2"), bin(BinOp::Mul, num("3"), num("4"))));
}

#[test]
fn parentheses_override_precedence() {
    let tree = parse("(2 + 3) * 4").unwrap();
    assert_eq!(tree, bin(BinOp::Mul, bin(BinOp::Add, num("2"), num("3")), num("4")));
}

#[test]
fn addition_chains_fold_to_the_left() {
    let tree = parse("1 - 2 + 3").unwrap();
    assert_eq!(
        tree,
        bin(BinOp::Add, bin(BinOp::Sub, num("1"), num("2")), num("3"))
    );
}

#[test]
fn power_chains_fold_to_the_left() {
    let tree = parse("2^3^2").unwrap();
    assert_eq!(
        tree,
        bin(BinOp::Pow, bin(BinOp::Pow, num("2"), num("3")), num("2"))
    );
}

#[test]
fn unary_minus_recurses_into_the_factor() {
    let tree = parse("-2^2").unwrap();
    assert_eq!(
        tree,
        bin(BinOp::Pow, Expr::Negate(Box::new(num("2"))), num("2"))
    );
    let tree = parse("--2").unwrap();
    assert_eq!(
        tree,
        Expr::Negate(Box::new(Expr::Negate(Box::new(num("2")))))
    );
}

#[test]
fn unary_plus_adds_no_node() {
    assert_eq!(parse("+2").unwrap(), num("2"));
}

#[test]
fn function_application_wraps_its_argument() {
    let tree = parse("sqrt(25)").unwrap();
    assert_eq!(tree, Expr::Apply(MathFunc::Sqrt, Box::new(num("25"))));
    let tree = parse("abs(-10)").unwrap();
    assert_eq!(
        tree,
        Expr::Apply(MathFunc::Abs, Box::new(Expr::Negate(Box::new(num("10")))))
    );
}

#[test]
fn structural_errors_are_distinguished() {
    assert_eq!(parse("2 +").unwrap_err(), EvalError::UnexpectedEndOfInput);
    assert_eq!(parse("(2 + 3").unwrap_err(), EvalError::UnmatchedParenthesis);
    assert_eq!(parse("sqrt 4").unwrap_err(), EvalError::MissingFunctionParenthesis);
    assert_eq!(
        parse("sqrt(4").unwrap_err(),
        EvalError::MissingFunctionClosingParenthesis
    );
    assert_eq!(parse("").unwrap_err(), EvalError::EmptyExpression);
    assert_eq!(
        parse(")").unwrap_err(),
        EvalError::UnexpectedToken(Token::RightParen)
    );
    assert_eq!(
        parse("*2").unwrap_err(),
        EvalError::UnexpectedToken(Token::Operator('*'))
    );
}

#[test]
fn validation_precedes_parsing() {
    // the length cap is checked before anything else
    let long = "9".repeat(1001);
    assert_eq!(parse(&long).unwrap_err(), EvalError::InputTooLong);
    // at the cap itself the input is still scanned
    let ok = "9".repeat(1000);
    assert_eq!(parse(&ok).unwrap(), num(&ok));
    // unsafe characters are rejected before tokenization sees anything
    assert_eq!(parse("2 + 3; rm -rf /").unwrap_err(), EvalError::UnsafeCharacter);
    assert_eq!(parse("&").unwrap_err(), EvalError::UnsafeCharacter);
}

#[test]
fn trailing_tokens_are_discarded() {
    // the final cursor position is dropped, so the value of the leading
    // expression stands and whatever follows it is ignored
    assert_eq!(parse("2 3").unwrap(), num("2"));
    assert_eq!(parse("2 + 3) * 4").unwrap(), bin(BinOp::Add, num("2"), num("3")));
}
