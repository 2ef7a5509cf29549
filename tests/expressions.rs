use vibe_calc::error::EvalError;
use vibe_calc::lexer::{tokenize, Token, TokenKind};
use vibe_calc::normalize::normalize;
use vibe_calc::parser::{parse, BinOp, Expr, Func};

fn lit(start: usize, end: usize) -> Box<Expr> {
    Box::new(Expr::Literal { start, end })
}

fn bin(op: BinOp, left: Box<Expr>, right: Box<Expr>) -> Box<Expr> {
    Box::new(Expr::Binary { op, left, right })
}

#[test]
fn normalize_leaves_plain_arithmetic_alone() {
    for s in ["1+2*3", "(4-1)/2^3", "", "  7 ", "sqrt(2)+abs(-1)", "6×2÷3"] {
        assert_eq!(normalize(s), s);
    }
}

#[test]
fn normalize_root_call() {
    assert_eq!(normalize("√(9)"), "sqrt(9)");
}

#[test]
fn normalize_bare_root_is_kept() {
    assert_eq!(normalize("√9"), "√9");
    assert_eq!(parse(&normalize("√9")), Err(EvalError::Tokenize { pos: 0 }));
}

#[test]
fn normalize_square() {
    assert_eq!(normalize("5²"), "5^2");
    assert_eq!(normalize("2²²"), "2^2^2");
}

#[test]
fn normalize_bars_make_abs() {
    assert_eq!(normalize("|-3|"), "abs(-3)");
    assert_eq!(normalize("|1|+|2|"), "abs(1)+abs(2)");
    assert_eq!(normalize("√(|-4|)²"), "sqrt(abs(-4))^2");
}

#[test]
fn odd_bar_is_unmatched_parenthesis() {
    assert_eq!(normalize("|2"), "abs(2");
    assert_eq!(parse(&normalize("|2")), Err(EvalError::Parse { pos: 5 }));
}

#[test]
fn abs_of_negated_literal_parses() {
    let canonical = normalize("|-3|");
    assert_eq!(
        parse(&canonical),
        Ok(Expr::Call { func: Func::Abs, arg: Box::new(Expr::Neg { operand: lit(5, 6) }) })
    );
}

#[test]
fn sqrt_call_parses() {
    assert_eq!(parse("sqrt(9)"), Ok(Expr::Call { func: Func::Sqrt, arg: lit(5, 6) }));
}

#[test]
fn square_parses_as_power() {
    assert_eq!(parse("5^2"), Ok(*bin(BinOp::Pow, lit(0, 1), lit(2, 3))));
}

#[test]
fn power_groups_to_the_right() {
    assert_eq!(
        parse("2^3^2"),
        Ok(*bin(BinOp::Pow, lit(0, 1), bin(BinOp::Pow, lit(2, 3), lit(4, 5))))
    );
}

#[test]
fn minus_applies_after_power() {
    assert_eq!(
        parse("-2^2"),
        Ok(Expr::Neg { operand: bin(BinOp::Pow, lit(1, 2), lit(3, 4)) })
    );
}

#[test]
fn negative_exponent() {
    assert_eq!(
        parse("2^-1"),
        Ok(*bin(BinOp::Pow, lit(0, 1), Box::new(Expr::Neg { operand: lit(3, 4) })))
    );
}

#[test]
fn products_and_sums_group_to_the_left() {
    assert_eq!(
        parse("8/4/2"),
        Ok(*bin(BinOp::Div, bin(BinOp::Div, lit(0, 1), lit(2, 3)), lit(4, 5)))
    );
    assert_eq!(
        parse("1-2+3"),
        Ok(*bin(BinOp::Add, bin(BinOp::Sub, lit(0, 1), lit(2, 3)), lit(4, 5)))
    );
    assert_eq!(
        parse("1+2*3"),
        Ok(*bin(BinOp::Add, lit(0, 1), bin(BinOp::Mul, lit(2, 3), lit(4, 5))))
    );
}

#[test]
fn glyph_operators_are_aliases() {
    assert_eq!(
        parse("6×2÷3"),
        Ok(*bin(BinOp::Div, bin(BinOp::Mul, lit(0, 1), lit(2, 3)), lit(4, 5)))
    );
}

#[test]
fn division_by_zero_parses_to_a_division() {
    assert_eq!(parse("1/0"), Ok(*bin(BinOp::Div, lit(0, 1), lit(2, 3))));
}

#[test]
fn root_of_negative_parses() {
    assert_eq!(
        parse("sqrt(-4)"),
        Ok(Expr::Call { func: Func::Sqrt, arg: Box::new(Expr::Neg { operand: lit(6, 7) }) })
    );
}

#[test]
fn unmatched_parenthesis_is_parse_error() {
    assert_eq!(parse("(2+3"), Err(EvalError::Parse { pos: 4 }));
}

#[test]
fn empty_expression_is_parse_error() {
    assert_eq!(parse(""), Err(EvalError::Parse { pos: 0 }));
    assert_eq!(parse("   "), Err(EvalError::Parse { pos: 3 }));
}

#[test]
fn empty_group_is_parse_error() {
    assert_eq!(parse("()"), Err(EvalError::Parse { pos: 1 }));
    assert_eq!(parse("sqrt()"), Err(EvalError::Parse { pos: 5 }));
}

#[test]
fn trailing_tokens_are_parse_error() {
    assert_eq!(parse("1 2"), Err(EvalError::Parse { pos: 2 }));
    assert_eq!(parse("1.2.3"), Err(EvalError::Parse { pos: 3 }));
    assert_eq!(parse("(1))"), Err(EvalError::Parse { pos: 3 }));
}

#[test]
fn tokenize_errors() {
    assert_eq!(parse("."), Err(EvalError::Tokenize { pos: 0 }));
    assert_eq!(parse("2 $ 3"), Err(EvalError::Tokenize { pos: 2 }));
    assert_eq!(parse("sqrt 4"), Err(EvalError::Tokenize { pos: 0 }));
    assert_eq!(parse("x"), Err(EvalError::Tokenize { pos: 0 }));
}

#[test]
fn tokens_carry_spans() {
    let toks = tokenize(" 12.5 *abs(.5)").unwrap();
    let kinds: Vec<TokenKind> = toks.iter().map(|t| t.kind).collect();
    assert_eq!(
        kinds,
        vec![
            TokenKind::Number,
            TokenKind::Star,
            TokenKind::Abs,
            TokenKind::LParen,
            TokenKind::Number,
            TokenKind::RParen
        ]
    );
    assert_eq!(toks[0], Token { kind: TokenKind::Number, start: 1, end: 5 });
    assert_eq!(toks[4], Token { kind: TokenKind::Number, start: 11, end: 13 });
}

#[test]
fn parsing_twice_gives_the_same_result() {
    for s in ["2^3^2", "(2+3", "1/0", ""] {
        assert_eq!(parse(s), parse(s));
    }
}

#[test]
fn error_messages() {
    assert_eq!(EvalError::DivisionByZero.message(), "division by zero");
    assert_eq!(EvalError::Domain.message(), "square root of a negative number");
    assert_eq!(EvalError::Parse { pos: 0 }.message(), "malformed expression");
    assert_eq!(
        EvalError::Tokenize { pos: 3 }.message(),
        "unrecognized character or malformed number"
    );
    assert_eq!(EvalError::NonFiniteResult.message(), "result is not a finite number");
}

#[test]
fn normalizing_twice_changes_nothing_more() {
    for s in ["√(9)", "5²", "|-3|", "|2", "√√((1)", "√|4|", "2²|", "sqrt(1)"] {
        let once = normalize(s);
        assert_eq!(normalize(&once), once);
    }
}
