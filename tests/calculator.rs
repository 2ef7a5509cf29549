use vibe_calc::calculator::{same_text, CalculatorApp};
use vibe_calc::color::parse_hex_color;
use vibe_calc::config::create_default_config;
use vibe_calc::error::EvalError;
use vibe_calc::parser::{Expr, Func};

fn fresh() -> CalculatorApp {
    CalculatorApp::new(create_default_config())
}

#[test]
fn default_config_values() {
    let c = create_default_config();
    assert_eq!(c.window_width, 400);
    assert_eq!(c.window_height, 600);
    assert_eq!(c.background_color, "#282c34");
    assert_eq!(c.button_color, "#61afef");
    assert_eq!(c.button_hover_color, "#528bbd");
    assert_eq!(c.button_pressed_color, "#3a6ea5");
    assert_eq!(c.font_size, 18);
    assert!(c.font_path.is_none());
}

#[test]
fn new_calculator_shows_zero() {
    let app = fresh();
    assert_eq!(app.input(), "");
    assert_eq!(app.result(), "0");
    assert_eq!(app.config().font_size, 18);
}

#[test]
fn typing_and_backspace() {
    let mut app = fresh();
    app.add_to_input("12");
    app.add_to_input("+√(");
    assert_eq!(app.input(), "12+√(");
    app.backspace();
    assert_eq!(app.input(), "12+√");
    app.backspace();
    assert_eq!(app.input(), "12+");
    let mut empty = fresh();
    empty.backspace();
    assert_eq!(empty.input(), "");
}

#[test]
fn clear_resets_input_and_result() {
    let mut app = fresh();
    app.add_to_input("(2+3");
    assert!(app.calculate().is_none());
    app.clear_input();
    assert_eq!(app.input(), "");
    assert_eq!(app.result(), "0");
}

#[test]
fn buttons_map_to_text() {
    let mut app = fresh();
    assert!(!app.press("√"));
    assert!(!app.press("9"));
    assert!(!app.press(")"));
    assert!(!app.press("×"));
    assert!(!app.press("|x|"));
    assert!(!app.press("÷"));
    assert!(!app.press("²"));
    assert_eq!(app.input(), "√(9)*||/²");
    assert!(!app.press("DEL"));
    assert_eq!(app.input(), "√(9)*||/");
    assert!(app.press("="));
    assert_eq!(app.input(), "√(9)*||/");
    assert!(!app.press("C"));
    assert_eq!(app.input(), "");
    assert_eq!(app.result(), "0");
}

#[test]
fn calculate_hands_back_canonical_tree() {
    let mut app = fresh();
    app.add_to_input("√(9)");
    let (canonical, tree) = app.calculate().unwrap();
    assert_eq!(canonical, "sqrt(9)");
    assert_eq!(
        tree,
        Expr::Call { func: Func::Sqrt, arg: Box::new(Expr::Literal { start: 5, end: 6 }) }
    );
    assert_eq!(app.result(), "0");
    app.show_value("3");
    assert_eq!(app.result(), "3");
    assert_eq!(app.input(), "√(9)");
}

#[test]
fn calculate_shows_parse_error_and_keeps_input() {
    let mut app = fresh();
    app.add_to_input("(2+3");
    assert!(app.calculate().is_none());
    assert_eq!(app.result(), "Error: malformed expression");
    assert_eq!(app.input(), "(2+3");
}

#[test]
fn shown_errors_carry_prefix() {
    let mut app = fresh();
    app.show_error(EvalError::DivisionByZero);
    assert_eq!(app.result(), "Error: division by zero");
    app.show_error(EvalError::Domain);
    assert_eq!(app.result(), "Error: square root of a negative number");
}

#[test]
fn same_text_compares_characters() {
    assert!(same_text("DEL", "DEL"));
    assert!(!same_text("DEL", "DE"));
    assert!(!same_text("×", "*"));
    assert!(same_text("", ""));
}

#[test]
fn hex_colors() {
    assert_eq!(parse_hex_color("#282c34"), Ok((0x28, 0x2c, 0x34)));
    assert_eq!(parse_hex_color("61AFEF"), Ok((0x61, 0xaf, 0xef)));
    assert_eq!(parse_hex_color("##ffFFff"), Ok((255, 255, 255)));
    assert_eq!(parse_hex_color("#12345"), Err(()));
    assert_eq!(parse_hex_color("#12345g"), Err(()));
    assert_eq!(parse_hex_color("#1234567"), Err(()));
    assert_eq!(parse_hex_color(""), Err(()));
}
