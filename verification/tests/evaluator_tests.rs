use calc_mcp::ast::Expr;
use calc_mcp::ast::MathFunc;
use calc_mcp::ast::BinOp;
use calc_mcp::calculator::CalculateRequest;
use calc_mcp::calculator::CalculatorService;
use calc_mcp::error::EvalError;
use calc_mcp::numeric::check_divisor;
use calc_mcp::numeric::check_function_result;
use calc_mcp::numeric::check_power_result;

/// Numeric evaluation of a parsed tree, as the embedding program performs it:
/// plain f64 arithmetic, with every defensive decision delegated to the
/// verified bit-pattern checks of the library.
fn eval_expr(e: &Expr) -> Result<f64, EvalError> {
    match e {
        Expr::Number(lex) => lex
            .parse::<f64>()
            .map_err(|_| EvalError::NumberParseError(lex.clone())),
        Expr::Negate(inner) => Ok(-eval_expr(inner)?),
        Expr::Binary(op, l, r) => {
            let a = eval_expr(l)?;
            let b = eval_expr(r)?;
            match op {
                BinOp::Add => Ok(a + b),
                BinOp::Sub => Ok(a - b),
                BinOp::Mul => Ok(a * b),
                BinOp::Div => {
                    check_divisor(b.to_bits())?;
                    Ok(a / b)
                }
                BinOp::Pow => {
                    let p = a.powf(b);
                    check_power_result(p.to_bits())?;
                    Ok(p)
                }
            }
        }
        Expr::Apply(f, arg) => {
            let x = eval_expr(arg)?;
            let v = match f {
                MathFunc::Sqrt => x.sqrt(),
                MathFunc::Abs => x.abs(),
                MathFunc::Sin => x.sin(),
                MathFunc::Cos => x.cos(),
                MathFunc::Tan => x.tan(),
                MathFunc::Ln => x.ln(),
            };
            check_function_result(v.to_bits())?;
            Ok(v)
        }
    }
}

fn message(e: &EvalError) -> String {
    match e {
        EvalError::InputTooLong => "式が長すぎます（最大1000文字）".to_string(),
        EvalError::UnsafeCharacter => "不正な文字が含まれています".to_string(),
        EvalError::InvalidCharacter(c) => format!("不正な文字: {}", c),
        EvalError::UnknownFunction(name) => format!("未サポートの関数: {}", name),
        EvalError::NumberParseError(lex) => format!("数値の解析に失敗: {}", lex),
        EvalError::EmptyExpression => "空の式です".to_string(),
        EvalError::UnexpectedEndOfInput => "予期しない式の終了".to_string(),
        EvalError::UnmatchedParenthesis => "対応する右括弧がありません".to_string(),
        EvalError::MissingFunctionParenthesis => "関数の後に左括弧が必要です".to_string(),
        EvalError::MissingFunctionClosingParenthesis => {
            "関数の引数の後に右括弧が必要です".to_string()
        }
        EvalError::UnexpectedToken(t) => format!("予期しないトークン: {:?}", t),
        EvalError::DivisionByZero => "ゼロ除算エラー".to_string(),
        EvalError::InvalidPowerResult => "べき乗の計算結果が無効です".to_string(),
        EvalError::InvalidFunctionResult => {
            "計算結果が無効です（NaN または 無限大）".to_string()
        }
    }
}

/// The whole "calculate" operation as the service surfaces it: the verified
/// pipeline, then the numeric walk, then the textual envelope.
fn calculate(expression: &str) -> Result<String, String> {
    let service = CalculatorService;
    let request = CalculateRequest {
        expression: expression.to_string(),
    };
    let outcome = match service.calculate(&request) {
        Ok(tree) => eval_expr(&tree),
        Err(e) => Err(e),
    };
    match outcome {
        Ok(v) => Ok(format!("計算結果: {}", v)),
        Err(e) => Err(format!("計算エラー: {}", message(&e))),
    }
}

#[test]
fn test_calculate_basic_arithmetic() {
    let result = calculate("2 + 3").unwrap();
    assert_eq!(result, "計算結果: 5");

    let result = calculate("4 * 5").unwrap();
    assert_eq!(result, "計算結果: 20");

    let result = calculate("2 + 3 * 4").unwrap();
    assert_eq!(result, "計算結果: 14");
}

#[test]
fn test_calculate_with_parentheses() {
    let result = calculate("(2 + 3) * 4").unwrap();
    assert_eq!(result, "計算結果: 20");
}

#[test]
fn test_calculate_math_functions() {
    let result = calculate("sqrt(25)").unwrap();
    assert_eq!(result, "計算結果: 5");

    let result = calculate("abs(-10)").unwrap();
    assert_eq!(result, "計算結果: 10");

    let result = calculate("25^0.5").unwrap();
    assert_eq!(result, "計算結果: 5");
}

#[test]
fn test_calculate_error_handling() {
    let result = calculate("2 +");
    assert!(result.is_err());
    assert!(result.unwrap_err().contains("計算エラー"));

    let result = calculate("x + 1");
    assert!(result.is_err());
    assert!(result.unwrap_err().contains("計算エラー"));
}

#[test]
fn test_calculate_floating_point() {
    let result = calculate("3.14 * 2").unwrap();
    assert_eq!(result, "計算結果: 6.28");
}

#[test]
fn test_calculate_power() {
    let result = calculate("2^3").unwrap();
    assert_eq!(result, "計算結果: 8");
}

#[test]
fn test_security_input_length_limit() {
    let long_expression = "1+".repeat(1000);
    let result = calculate(&long_expression);
    assert!(result.is_err());
    assert!(result.unwrap_err().contains("長すぎます"));
}

#[test]
fn test_security_dangerous_characters() {
    let dangerous_inputs = vec![
        "2 + 3; rm -rf /",
        "2 + 3 | echo hello",
        "2 + 3 & echo world",
    ];

    for input in dangerous_inputs {
        let result = calculate(input);
        assert!(result.is_err());
        assert!(result.unwrap_err().contains("不正な文字"));
    }
}

#[test]
fn test_security_function_whitelist() {
    let result = calculate("exec(rm)");
    assert!(result.is_err());
    let error_msg = result.unwrap_err();
    assert!(error_msg.contains("未サポートの関数") || error_msg.contains("不正な文字"));
}

#[test]
fn test_security_zero_division() {
    let result = calculate("1 / 0");
    assert!(result.is_err());
    assert!(result.unwrap_err().contains("ゼロ除算"));
}

#[test]
fn test_security_nan_infinity() {
    let result = calculate("sqrt(-1)");
    if result.is_err() {
        assert!(result.unwrap_err().contains("無効"));
    }
}

#[test]
fn power_chain_folds_to_the_left() {
    assert_eq!(calculate("2^3^2").unwrap(), "計算結果: 64");
    assert_ne!(calculate("2^3^2").unwrap(), "計算結果: 512");
}

#[test]
fn unary_minus_binds_tighter_than_power() {
    assert_eq!(calculate("-2^2").unwrap(), "計算結果: 4");
}

#[test]
fn domain_violation_is_rejected_not_returned() {
    let result = calculate("sqrt(-1)");
    assert_eq!(
        result.unwrap_err(),
        "計算エラー: 計算結果が無効です（NaN または 無限大）"
    );
    let result = calculate("ln(0)");
    assert!(result.is_err());
}

#[test]
fn overflowing_power_is_rejected() {
    let result = calculate("10 ^ 10000");
    assert_eq!(
        result.unwrap_err(),
        "計算エラー: べき乗の計算結果が無効です"
    );
}

#[test]
fn evaluation_is_idempotent() {
    let first = calculate("sin(1) + 2^10 / abs(-4)");
    let second = calculate("sin(1) + 2^10 / abs(-4)");
    assert_eq!(first, second);
    let first = calculate("2 +");
    let second = calculate("2 +");
    assert_eq!(first, second);
}

#[test]
fn empty_expression_is_rejected() {
    let result = calculate("");
    assert_eq!(result.unwrap_err(), "計算エラー: 空の式です");
    let result = calculate("   ");
    assert_eq!(result.unwrap_err(), "計算エラー: 空の式です");
}
